use vstd::prelude::*;

use crate::line::{among, lemma_line_points_among, line_points, on_line};
use crate::math::Point2;
use crate::utils::{index_of, lemma_mul_i32};

verus! {

/// The color that alpha blits treat as transparent.
pub const MASK_COLOR: u16 = 1023;

/// How a blit combines a source pixel with the pixel it lands on.
#[derive(Clone, Copy, Debug, PartialEq, Eq, Structural)]
pub enum BlitMethod {
    /// The source pixel replaces the destination pixel.
    Copy,
    /// As `Copy`, but a source pixel of `MASK_COLOR` leaves the destination as it was.
    Alpha,
}

/// What a blit leaves in a destination pixel that held `old` when `src` lands on it.
pub open spec fn blend(old: u16, src: u16, method: BlitMethod) -> u16 {
    if method == BlitMethod::Alpha && src == MASK_COLOR {
        old
    } else {
        src
    }
}

/// A rectangular buffer of 16-bit colors, stored row by row.
pub struct B2D {
    pub width: i32,
    pub height: i32,
    pub pixels: Vec<u16>,
}

/// A buffer that owns its pixels.
pub type B2DO = B2D;

pub proof fn lemma_index_in_grid(x: int, y: int, w: int, h: int)
    requires
        0 <= x < w,
        0 <= y < h,
    ensures
        0 <= index_of(x, y, w) < w * h,
        index_of(x, y, w) + (w - x) <= w * h,
{
    assert(0 <= y * w) by (nonlinear_arith)
        requires
            0 <= y,
            0 <= w,
    ;
    assert(y * w + w <= w * h) by (nonlinear_arith)
        requires
            y < h,
            0 <= w,
    ;
}

pub proof fn lemma_index_unique(x1: int, y1: int, x2: int, y2: int, w: int)
    requires
        0 <= x1 < w,
        0 <= x2 < w,
        index_of(x1, y1, w) == index_of(x2, y2, w),
    ensures
        x1 == x2 && y1 == y2,
{
    assert(y1 == y2) by (nonlinear_arith)
        requires
            0 <= x1 < w,
            0 <= x2 < w,
            y1 * w + x1 == y2 * w + x2,
    ;
}

impl B2D {
    /// Nonnegative dimensions, and one pixel for each cell of the grid.
    pub open spec fn wf(&self) -> bool {
        &&& self.width >= 0
        &&& self.height >= 0
        &&& self.pixels@.len() == self.width * self.height
    }

    /// Whether `(x, y)` is a pixel of the buffer.
    pub open spec fn in_bounds(&self, x: int, y: int) -> bool {
        0 <= x < self.width && 0 <= y < self.height
    }

    /// The color at pixel `(x, y)`.
    pub open spec fn at(&self, x: int, y: int) -> u16 {
        self.pixels@[index_of(x, y, self.width as int)]
    }

    /// The cell of pixel `(x, y)`.
    fn cell(&self, x: i64, y: i64) -> (r: usize)
        requires
            self.wf(),
            self.in_bounds(x as int, y as int),
        ensures
            r as int == index_of(x as int, y as int, self.width as int),
            r < self.pixels@.len(),
    {
        proof {
            lemma_index_in_grid(x as int, y as int, self.width as int, self.height as int);
            lemma_mul_i32(y as int, self.width as int);
        }
        let len = self.pixels.len();
        (y * self.width as i64 + x) as usize
    }

    /// The cell of pixel `(x, y)`.
    pub fn cell_of(&self, x: usize, y: usize) -> (r: usize)
        requires
            self.wf(),
            self.in_bounds(x as int, y as int),
        ensures
            r as int == index_of(x as int, y as int, self.width as int),
            r < self.pixels@.len(),
    {
        self.cell(x as i64, y as i64)
    }

    /// A buffer of `width * height` pixels, all 0.
    pub fn new(width: i32, height: i32) -> (r: Self)
        requires
            width >= 0,
            height >= 0,
            width * height <= usize::MAX,
        ensures
            r.wf(),
            r.width == width,
            r.height == height,
            forall|i: int| 0 <= i < r.pixels@.len() ==> r.pixels@[i] == 0,
    {
        assert(0 <= width * height) by (nonlinear_arith)
            requires
                width >= 0,
                height >= 0,
        ;
        proof {
            lemma_mul_i32(width as int, height as int);
        }
        let n = (width as i64 * height as i64) as usize;
        B2D { width, height, pixels: vec![0; n] }
    }

    /// Takes the new dimensions; pixels that stay keep their value, new ones are 0.
    pub fn resize(&mut self, width: i32, height: i32)
        requires
            width >= 0,
            height >= 0,
            width * height <= usize::MAX,
        ensures
            final(self).wf(),
            final(self).width == width,
            final(self).height == height,
            forall|i: int|
                0 <= i < final(self).pixels@.len() ==> final(self).pixels@[i] == if i
                    < old(self).pixels@.len() {
                    old(self).pixels@[i]
                } else {
                    0
                },
    {
        assert(0 <= width * height) by (nonlinear_arith)
            requires
                width >= 0,
                height >= 0,
        ;
        proof {
            lemma_mul_i32(width as int, height as int);
        }
        let n = (width as i64 * height as i64) as usize;
        self.width = width;
        self.height = height;
        self.pixels.resize(n, 0);
    }

    /// The buffer itself, as a target for drawing.
    pub fn as_b2ds(&mut self) -> (r: &mut Self)
        ensures
            *r == *old(self),
            *final(self) == *final(r),
    {
        self
    }

    /// The color stored at cell `y * width + x`.
    pub fn get_color(&self, x: usize, y: usize) -> (r: u16)
        requires
            self.wf(),
            index_of(x as int, y as int, self.width as int) < self.pixels@.len(),
        ensures
            r == self.pixels@[index_of(x as int, y as int, self.width as int)],
    {
        let len = self.pixels.len();
        let w = self.width as usize;
        assert(y * w <= index_of(x as int, y as int, self.width as int));
        self.pixels[y * w + x]
    }

    /// The pixel nearest to `(x, y)` within the buffer: each coordinate is
    /// clamped into the buffer's range before the lookup.
    pub fn sample(&self, x: i64, y: i64) -> (r: u16)
        requires
            self.wf(),
            self.width > 0,
            self.height > 0,
        ensures
            r == self.at(clamp_int(x as int, 0, self.width - 1), clamp_int(y as int, 0, self.height - 1)),
    {
        let cx = if x < 0 {
            0
        } else if x > self.width as i64 - 1 {
            self.width as i64 - 1
        } else {
            x
        };
        let cy = if y < 0 {
            0
        } else if y > self.height as i64 - 1 {
            self.height as i64 - 1
        } else {
            y
        };
        self.pixels[self.cell(cx, cy)]
    }

    /// Writes `c` at pixel `(x, y)`; a point outside the buffer is ignored.
    pub fn set_color(&mut self, x: i32, y: i32, c: u16)
        requires
            old(self).wf(),
        ensures
            final(self).wf(),
            final(self).width == old(self).width,
            final(self).height == old(self).height,
            forall|px: int, py: int|
                old(self).in_bounds(px, py) ==> #[trigger] final(self).at(px, py) == if px == x
                    && py == y {
                    c
                } else {
                    old(self).at(px, py)
                },
    {
        if x >= 0 && x < self.width && y >= 0 && y < self.height {
            let i = self.cell(x as i64, y as i64);
            self.set_color_by_index(i, c);
            proof {
                assert forall|px: int, py: int| old(self).in_bounds(px, py) implies #[trigger] self.at(
                    px,
                    py,
                ) == if px == x && py == y {
                    c
                } else {
                    old(self).at(px, py)
                } by {
                    lemma_index_in_grid(px, py, self.width as int, self.height as int);
                    if index_of(px, py, self.width as int) == i {
                        lemma_index_unique(px, py, x as int, y as int, self.width as int);
                    }
                }
            }
        }
    }

    /// Writes `c` at cell `index`.
    pub fn set_color_by_index(&mut self, index: usize, c: u16)
        requires
            index < old(self).pixels@.len(),
        ensures
            final(self).pixels@ == old(self).pixels@.update(index as int, c),
            final(self).width == old(self).width,
            final(self).height == old(self).height,
    {
        self.pixels.set(index, c);
    }
}

pub open spec fn clamp_int(v: int, lo: int, hi: int) -> int {
    if v < lo {
        lo
    } else if v > hi {
        hi
    } else {
        v
    }
}

/// Whether `v` lies in the span of `len` values that starts at `start`.
pub open spec fn in_span(v: int, start: int, len: int) -> bool {
    start <= v < start + len
}

/// What a blit of the source rectangle at `(sx, sy)` of size `len`, placed at
/// `offset`, leaves in the pixel `(x, y)` of a buffer that held `old` there.
pub open spec fn blit_result(
    old: u16,
    x: int,
    y: int,
    source: Seq<u16>,
    sx: int,
    sy: int,
    len: (i32, i32),
    source_width: int,
    offset: (i32, i32),
    method: BlitMethod,
) -> u16 {
    if in_span(x, offset.0 as int, len.0 as int) && in_span(y, offset.1 as int, len.1 as int) {
        blend(old, source[index_of(sx + x - offset.0, sy + y - offset.1, source_width)], method)
    } else {
        old
    }
}

/// The source rectangle at `offset` of size `len` lies inside an image
/// `width` pixels wide stored row by row in `source`.
pub open spec fn source_rect_ok(
    source: Seq<u16>,
    offset: (i32, i32),
    len: (i32, i32),
    width: i32,
) -> bool {
    &&& offset.0 >= 0
    &&& offset.1 >= 0
    &&& len.0 >= 0
    &&& len.1 >= 0
    &&& offset.0 + len.0 <= width
    &&& (offset.1 + len.1) * width <= source.len()
}

impl B2D {
    /// Copies the source rectangle at `source_offset` of size `image_length`
    /// to the rectangle of the same size at `offset`, combining pixels by
    /// `method`. The part that falls outside this buffer is left out.
    pub fn blit_region(
        &mut self,
        source: &[u16],
        source_offset: (i32, i32),
        image_length: (i32, i32),
        source_width: i32,
        offset: (i32, i32),
        method: BlitMethod,
    )
        requires
            old(self).wf(),
            source_rect_ok(source@, source_offset, image_length, source_width),
        ensures
            final(self).wf(),
            final(self).width == old(self).width,
            final(self).height == old(self).height,
            forall|x: int, y: int|
                old(self).in_bounds(x, y) ==> #[trigger] final(self).at(x, y) == blit_result(
                    old(self).at(x, y),
                    x,
                    y,
                    source@,
                    source_offset.0 as int,
                    source_offset.1 as int,
                    image_length,
                    source_width as int,
                    offset,
                    method,
                ),
    {
        let ghost old_self = *self;
        let ox = offset.0 as i64;
        let oy = offset.1 as i64;
        let sx = source_offset.0 as i64;
        let sy = source_offset.1 as i64;
        let x0: i64 = if ox < 0 { 0 } else { ox };
        let y0: i64 = if oy < 0 { 0 } else { oy };
        let x1: i64 = if ox + image_length.0 as i64 > self.width as i64 {
            self.width as i64
        } else {
            ox + image_length.0 as i64
        };
        let y1: i64 = if oy + image_length.1 as i64 > self.height as i64 {
            self.height as i64
        } else {
            oy + image_length.1 as i64
        };
        let source_len = source.len();
        let sw = source_width as usize;
        let mut y = y0;
        while y < y1
            invariant
                self.wf(),
                self.width == old_self.width,
                self.height == old_self.height,
                old_self.wf(),
                source_len == source@.len(),
                source_rect_ok(source@, source_offset, image_length, source_width),
                sw == source_width,
                ox == offset.0 && oy == offset.1 && sx == source_offset.0 && sy == source_offset.1,
                x0 == crate::math::max_int(ox as int, 0),
                y0 == crate::math::max_int(oy as int, 0),
                x1 == crate::math::min_int(ox + image_length.0, self.width as int),
                y1 == crate::math::min_int(oy + image_length.1, self.height as int),
                y0 <= y,
                forall|px: int, py: int|
                    old_self.in_bounds(px, py) ==> #[trigger] self.at(px, py) == if py < y {
                        blit_result(
                            old_self.at(px, py),
                            px,
                            py,
                            source@,
                            sx as int,
                            sy as int,
                            image_length,
                            source_width as int,
                            offset,
                            method,
                        )
                    } else {
                        old_self.at(px, py)
                    },
            decreases y1 - y,
        {
            let mut x = x0;
            while x < x1
                invariant
                    self.wf(),
                    self.width == old_self.width,
                    self.height == old_self.height,
                    old_self.wf(),
                    source_len == source@.len(),
                    source_rect_ok(source@, source_offset, image_length, source_width),
                    sw == source_width,
                    ox == offset.0 && oy == offset.1 && sx == source_offset.0 && sy
                        == source_offset.1,
                    x0 == crate::math::max_int(ox as int, 0),
                    y0 == crate::math::max_int(oy as int, 0),
                    x1 == crate::math::min_int(ox + image_length.0, self.width as int),
                    y1 == crate::math::min_int(oy + image_length.1, self.height as int),
                    y0 <= y < y1,
                    x0 <= x,
                    forall|px: int, py: int|
                        old_self.in_bounds(px, py) ==> #[trigger] self.at(px, py) == if py < y
                            || (py == y && px < x) {
                            blit_result(
                                old_self.at(px, py),
                                px,
                                py,
                                source@,
                                sx as int,
                                sy as int,
                                image_length,
                                source_width as int,
                                offset,
                                method,
                            )
                        } else {
                            old_self.at(px, py)
                        },
                decreases x1 - x,
            {
                let row = (sy + y - oy) as usize;
                let col = (sx + x - ox) as usize;
                proof {
                    lemma_index_in_grid(
                        col as int,
                        row as int,
                        source_width as int,
                        sy + image_length.1,
                    );
                }
                let v = source[row * sw + col];
                if method == BlitMethod::Copy || v != MASK_COLOR {
                    self.set_color(x as i32, y as i32, v);
                }
                x = x + 1;
            }
            y = y + 1;
        }
    }

    /// `blit_region` that replaces the destination pixels.
    pub fn blit_region_copy(
        &mut self,
        source: &[u16],
        source_offset: (i32, i32),
        image_length: (i32, i32),
        source_width: i32,
        offset: (i32, i32),
    )
        requires
            old(self).wf(),
            source_rect_ok(source@, source_offset, image_length, source_width),
        ensures
            final(self).wf(),
            final(self).width == old(self).width,
            final(self).height == old(self).height,
            forall|x: int, y: int|
                old(self).in_bounds(x, y) ==> #[trigger] final(self).at(x, y) == blit_result(
                    old(self).at(x, y),
                    x,
                    y,
                    source@,
                    source_offset.0 as int,
                    source_offset.1 as int,
                    image_length,
                    source_width as int,
                    offset,
                    BlitMethod::Copy,
                ),
    {
        self.blit_region(
            source,
            source_offset,
            image_length,
            source_width,
            offset,
            BlitMethod::Copy,
        )
    }

    /// `blit_region` that skips source pixels of `MASK_COLOR`.
    pub fn blit_region_alpha(
        &mut self,
        source: &[u16],
        source_offset: (i32, i32),
        image_length: (i32, i32),
        source_width: i32,
        offset: (i32, i32),
    )
        requires
            old(self).wf(),
            source_rect_ok(source@, source_offset, image_length, source_width),
        ensures
            final(self).wf(),
            final(self).width == old(self).width,
            final(self).height == old(self).height,
            forall|x: int, y: int|
                old(self).in_bounds(x, y) ==> #[trigger] final(self).at(x, y) == blit_result(
                    old(self).at(x, y),
                    x,
                    y,
                    source@,
                    source_offset.0 as int,
                    source_offset.1 as int,
                    image_length,
                    source_width as int,
                    offset,
                    BlitMethod::Alpha,
                ),
    {
        self.blit_region(
            source,
            source_offset,
            image_length,
            source_width,
            offset,
            BlitMethod::Alpha,
        )
    }
}

impl B2D {
    /// Copies the whole source image, `source_size` pixels, to `offset`.
    pub fn blit_full(&mut self, source: &[u16], source_size: (i32, i32), offset: (i32, i32))
        requires
            old(self).wf(),
            source_rect_ok(source@, (0, 0), source_size, source_size.0),
        ensures
            final(self).wf(),
            final(self).width == old(self).width,
            final(self).height == old(self).height,
            forall|x: int, y: int|
                old(self).in_bounds(x, y) ==> #[trigger] final(self).at(x, y) == blit_result(
                    old(self).at(x, y),
                    x,
                    y,
                    source@,
                    0,
                    0,
                    source_size,
                    source_size.0 as int,
                    offset,
                    BlitMethod::Copy,
                ),
    {
        self.blit_region_copy(source, (0, 0), source_size, source_size.0, offset)
    }

    /// Copies the whole source image to `offset`, skipping pixels of `MASK_COLOR`.
    pub fn blit_full_alpha(&mut self, source: &[u16], source_size: (i32, i32), offset: (i32, i32))
        requires
            old(self).wf(),
            source_rect_ok(source@, (0, 0), source_size, source_size.0),
        ensures
            final(self).wf(),
            final(self).width == old(self).width,
            final(self).height == old(self).height,
            forall|x: int, y: int|
                old(self).in_bounds(x, y) ==> #[trigger] final(self).at(x, y) == blit_result(
                    old(self).at(x, y),
                    x,
                    y,
                    source@,
                    0,
                    0,
                    source_size,
                    source_size.0 as int,
                    offset,
                    BlitMethod::Alpha,
                ),
    {
        self.blit_region_alpha(source, (0, 0), source_size, source_size.0, offset)
    }

    /// Copies the whole of `buffer` to `offset`.
    pub fn blit_buffer_full(&mut self, buffer: &B2D, offset: (i32, i32))
        requires
            old(self).wf(),
            buffer.wf(),
        ensures
            final(self).wf(),
            final(self).width == old(self).width,
            final(self).height == old(self).height,
            forall|x: int, y: int|
                old(self).in_bounds(x, y) ==> #[trigger] final(self).at(x, y) == blit_result(
                    old(self).at(x, y),
                    x,
                    y,
                    buffer.pixels@,
                    0,
                    0,
                    (buffer.width, buffer.height),
                    buffer.width as int,
                    offset,
                    BlitMethod::Copy,
                ),
    {
        assert(buffer.height * buffer.width == buffer.width * buffer.height) by (nonlinear_arith);
        self.blit_full(buffer.pixels.as_slice(), (buffer.width, buffer.height), offset)
    }

    /// Copies the whole of `buffer` to `offset`, skipping pixels of `MASK_COLOR`.
    pub fn blit_buffer_full_alpha(&mut self, buffer: &B2D, offset: (i32, i32))
        requires
            old(self).wf(),
            buffer.wf(),
        ensures
            final(self).wf(),
            final(self).width == old(self).width,
            final(self).height == old(self).height,
            forall|x: int, y: int|
                old(self).in_bounds(x, y) ==> #[trigger] final(self).at(x, y) == blit_result(
                    old(self).at(x, y),
                    x,
                    y,
                    buffer.pixels@,
                    0,
                    0,
                    (buffer.width, buffer.height),
                    buffer.width as int,
                    offset,
                    BlitMethod::Alpha,
                ),
    {
        assert(buffer.height * buffer.width == buffer.width * buffer.height) by (nonlinear_arith);
        self.blit_full_alpha(buffer.pixels.as_slice(), (buffer.width, buffer.height), offset)
    }

    /// Masks with `color` (bitwise and) every pixel of the rectangle of `size`
    /// whose corner is `offset` moved into the buffer.
    pub fn blit_fill(&mut self, offset: (i32, i32), size: (i32, i32), color: u16)
        requires
            old(self).wf(),
            size.0 >= 0,
            size.1 >= 0,
        ensures
            final(self).wf(),
            final(self).width == old(self).width,
            final(self).height == old(self).height,
            forall|x: int, y: int|
                old(self).in_bounds(x, y) ==> #[trigger] final(self).at(x, y) == if in_span(
                    x,
                    clamp_int(offset.0 as int, 0, old(self).width as int),
                    size.0 as int,
                ) && in_span(y, clamp_int(offset.1 as int, 0, old(self).height as int), size.1 as int) {
                    old(self).at(x, y) & color
                } else {
                    old(self).at(x, y)
                },
    {
        let ghost old_self = *self;
        let ox: i64 = if offset.0 < 0 {
            0
        } else if offset.0 > self.width {
            self.width as i64
        } else {
            offset.0 as i64
        };
        let oy: i64 = if offset.1 < 0 {
            0
        } else if offset.1 > self.height {
            self.height as i64
        } else {
            offset.1 as i64
        };
        let x1: i64 = if ox + size.0 as i64 > self.width as i64 {
            self.width as i64
        } else {
            ox + size.0 as i64
        };
        let y1: i64 = if oy + size.1 as i64 > self.height as i64 {
            self.height as i64
        } else {
            oy + size.1 as i64
        };
        let ghost cx = clamp_int(offset.0 as int, 0, old_self.width as int);
        let ghost cy = clamp_int(offset.1 as int, 0, old_self.height as int);
        let mut y = oy;
        while y < y1
            invariant
                self.wf(),
                self.width == old_self.width,
                self.height == old_self.height,
                ox == cx && oy == cy,
                0 <= ox <= self.width && 0 <= oy <= self.height,
                x1 == crate::math::min_int(ox + size.0, self.width as int),
                y1 == crate::math::min_int(oy + size.1, self.height as int),
                oy <= y,
                forall|px: int, py: int|
                    old_self.in_bounds(px, py) ==> #[trigger] self.at(px, py) == if in_span(
                        px,
                        cx,
                        size.0 as int,
                    ) && in_span(py, cy, size.1 as int) && py < y {
                        old_self.at(px, py) & color
                    } else {
                        old_self.at(px, py)
                    },
            decreases y1 - y,
        {
            let mut x = ox;
            while x < x1
                invariant
                    self.wf(),
                    self.width == old_self.width,
                    self.height == old_self.height,
                    ox == cx && oy == cy,
                    0 <= ox <= self.width && 0 <= oy <= self.height,
                    x1 == crate::math::min_int(ox + size.0, self.width as int),
                    y1 == crate::math::min_int(oy + size.1, self.height as int),
                    oy <= y < y1,
                    ox <= x,
                    forall|px: int, py: int|
                        old_self.in_bounds(px, py) ==> #[trigger] self.at(px, py) == if in_span(
                            px,
                            cx,
                            size.0 as int,
                        ) && in_span(py, cy, size.1 as int) && (py < y || (py == y && px < x)) {
                            old_self.at(px, py) & color
                        } else {
                            old_self.at(px, py)
                        },
                decreases x1 - x,
            {
                let i = self.cell(x, y);
                let v = self.pixels[i] & color;
                assert(self.at(x as int, y as int) == old_self.at(x as int, y as int));
                self.set_color(x as i32, y as i32, v);
                x = x + 1;
            }
            y = y + 1;
        }
    }
}

impl B2D {
    /// Writes `c` at each of `pts` that lies in the buffer.
    pub fn plot_points(&mut self, pts: &Vec<Point2>, c: u16)
        requires
            old(self).wf(),
        ensures
            final(self).wf(),
            final(self).width == old(self).width,
            final(self).height == old(self).height,
            forall|x: int, y: int|
                old(self).in_bounds(x, y) ==> #[trigger] final(self).at(x, y) == if among(
                    pts@,
                    x,
                    y,
                ) {
                    c
                } else {
                    old(self).at(x, y)
                },
    {
        let ghost old_self = *self;
        let mut i: usize = 0;
        while i < pts.len()
            invariant
                self.wf(),
                self.width == old_self.width,
                self.height == old_self.height,
                i <= pts@.len(),
                forall|x: int, y: int|
                    old_self.in_bounds(x, y) ==> #[trigger] self.at(x, y) == if among(
                        pts@.subrange(0, i as int),
                        x,
                        y,
                    ) {
                        c
                    } else {
                        old_self.at(x, y)
                    },
            decreases pts@.len() - i,
        {
            let p = pts[i];
            self.set_color(p.x, p.y, c);
            proof {
                let s0 = pts@.subrange(0, i as int);
                let s1 = pts@.subrange(0, i + 1);
                assert forall|x: int, y: int| old_self.in_bounds(x, y) implies among(s1, x, y) == (
                among(s0, x, y) || (x == p.x && y == p.y)) by {
                    if among(s1, x, y) {
                        let k = choose|k: int|
                            0 <= k < s1.len() && (#[trigger] s1[k].x as int, s1[k].y as int) == (
                            x, y);
                        if k < i {
                            assert(s0[k] == s1[k]);
                        }
                    }
                    if among(s0, x, y) {
                        let k = choose|k: int|
                            0 <= k < s0.len() && (#[trigger] s0[k].x as int, s0[k].y as int) == (
                            x, y);
                        assert(s0[k] == s1[k]);
                    }
                    if x == p.x && y == p.y {
                        assert(s1[i as int] == p);
                    }
                }
            }
            i = i + 1;
        }
        assert(pts@.subrange(0, i as int) =~= pts@);
    }

    /// Draws the line from `p0` to `p1` in color `c`, both endpoints first
    /// moved into the buffer.
    pub fn draw_line_2d(&mut self, p0: Point2, p1: Point2, c: u16)
        requires
            old(self).wf(),
            old(self).width > 0,
            old(self).height > 0,
        ensures
            final(self).wf(),
            final(self).width == old(self).width,
            final(self).height == old(self).height,
            forall|x: int, y: int|
                old(self).in_bounds(x, y) ==> #[trigger] final(self).at(x, y) == if on_line(
                    clamp_point(p0, old(self).width, old(self).height),
                    clamp_point(p1, old(self).width, old(self).height),
                    x,
                    y,
                ) {
                    c
                } else {
                    old(self).at(x, y)
                },
    {
        let q0 = Point2 { x: clamp_i32(p0.x, 0, self.width - 1), y: clamp_i32(p0.y, 0, self.height - 1) };
        let q1 = Point2 { x: clamp_i32(p1.x, 0, self.width - 1), y: clamp_i32(p1.y, 0, self.height - 1) };
        let pts = line_points(q0, q1);
        self.plot_points(&pts, c);
        proof {
            assert forall|x: int, y: int| old(self).in_bounds(x, y) implies among(pts@, x, y) == on_line(q0, q1, x, y) by {
                lemma_line_points_among(q0, q1, pts@, x, y);
            }
        }
    }
}

/// `v` moved into `[lo, hi]`.
pub fn clamp_i32(v: i32, lo: i32, hi: i32) -> (r: i32)
    requires
        lo <= hi,
    ensures
        r as int == clamp_int(v as int, lo as int, hi as int),
{
    if v < lo {
        lo
    } else if v > hi {
        hi
    } else {
        v
    }
}

/// `p` moved into a buffer of `width` by `height` pixels.
pub open spec fn clamp_point(p: Point2, width: i32, height: i32) -> Point2 {
    Point2 {
        x: clamp_int(p.x as int, 0, width - 1) as i32,
        y: clamp_int(p.y as int, 0, height - 1) as i32,
    }
}

} // verus!
