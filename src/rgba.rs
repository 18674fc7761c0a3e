use vstd::prelude::*;

use crate::buffer2d::{clamp_i32, clamp_point, in_span, lemma_index_in_grid, lemma_index_unique};
use crate::line::{among, lemma_line_points_among, line_points, on_line};
use crate::math::Point2;
use crate::utils::{index_of, lemma_mul_i32};

verus! {

/// A color as three 8-bit channels.
pub type Rgb = (u8, u8, u8);

/// The byte at channel `ch` of pixel `(x, y)` in 4-byte pixels stored row by row.
pub open spec fn byte_of(colors: Seq<u8>, width: int, x: int, y: int, ch: int) -> u8 {
    colors[4 * index_of(x, y, width) + ch]
}

/// A color with its alpha channel.
pub type Rgba = (u8, u8, u8, u8);

/// Channel `ch` of `c`.
pub open spec fn channel4(c: Rgba, ch: int) -> u8 {
    if ch == 0 {
        c.0
    } else if ch == 1 {
        c.1
    } else if ch == 2 {
        c.2
    } else {
        c.3
    }
}

/// `c` with an opaque alpha.
pub open spec fn opaque(c: Rgb) -> Rgba {
    (c.0, c.1, c.2, u8::MAX)
}

/// `colors` with the four bytes of cell `cell` set to `c`.
pub open spec fn put_rgba(colors: Seq<u8>, cell: int, c: Rgba) -> Seq<u8> {
    colors.update(4 * cell, c.0).update(4 * cell + 1, c.1).update(4 * cell + 2, c.2).update(
        4 * cell + 3,
        c.3,
    )
}

/// Writes the four channels of `c` at the 4 bytes that start at `index`.
fn write_rgba(colors: &mut Vec<u8>, index: usize, c: Rgba)
    requires
        index + 4 <= old(colors)@.len(),
    ensures
        final(colors)@ == old(colors)@.update(index as int, c.0).update(index + 1, c.1).update(
            index + 2,
            c.2,
        ).update(index + 3, c.3),
{
    let len = colors.len();
    colors.set(index, c.0);
    colors.set(index + 1, c.1);
    colors.set(index + 2, c.2);
    colors.set(index + 3, c.3);
}

proof fn lemma_cell_bytes(x: int, y: int, w: int, h: int, ch: int)
    requires
        0 <= x < w,
        0 <= y < h,
        0 <= ch < 4,
    ensures
        0 <= 4 * index_of(x, y, w) + ch < 4 * (w * h),
{
    lemma_index_in_grid(x, y, w, h);
}

/// What writing `c` at pixel `(px, py)` leaves in channel `ch` of `(x, y)`
/// that held `old`.
pub open spec fn after_put(old: u8, x: int, y: int, ch: int, px: int, py: int, c: Rgba) -> u8 {
    if x == px && y == py {
        channel4(c, ch)
    } else {
        old
    }
}

proof fn lemma_put_rgba(colors: Seq<u8>, w: int, h: int, px: int, py: int, c: Rgba)
    requires
        colors.len() == 4 * (w * h),
        0 <= px < w,
        0 <= py < h,
    ensures
        put_rgba(colors, index_of(px, py, w), c).len() == colors.len(),
        forall|x: int, y: int, ch: int|
            0 <= x < w && 0 <= y < h && 0 <= ch < 4 ==> #[trigger] byte_of(
                put_rgba(colors, index_of(px, py, w), c),
                w,
                x,
                y,
                ch,
            ) == after_put(byte_of(colors, w, x, y, ch), x, y, ch, px, py, c),
{
    lemma_index_in_grid(px, py, w, h);
    assert forall|x: int, y: int, ch: int| 0 <= x < w && 0 <= y < h && 0 <= ch < 4 implies #[trigger] byte_of(
        put_rgba(colors, index_of(px, py, w), c),
        w,
        x,
        y,
        ch,
    ) == after_put(byte_of(colors, w, x, y, ch), x, y, ch, px, py, c) by {
        lemma_cell_bytes(x, y, w, h, ch);
        if index_of(x, y, w) == index_of(px, py, w) {
            lemma_index_unique(x, y, px, py, w);
        }
    }
}

/// An image of 4-byte pixels (red, green, blue, alpha) that owns its bytes.
pub struct Buffer2D {
    pub width: usize,
    pub height: usize,
    pub colors: Vec<u8>,
}

impl Buffer2D {
    /// Four bytes for each pixel.
    pub open spec fn wf(&self) -> bool {
        self.colors@.len() == 4 * (self.width * self.height)
    }

    /// An image of the given size over `colors`.
    pub fn new(width: usize, height: usize, colors: Vec<u8>) -> (r: Self)
        ensures
            r.width == width,
            r.height == height,
            r.colors@ == colors@,
    {
        Buffer2D { width, height, colors }
    }

    /// The red, green and blue bytes of pixel `(x, y)`.
    pub fn get_color(&self, x: usize, y: usize) -> (r: Rgb)
        requires
            self.wf(),
            x < self.width,
            y < self.height,
        ensures
            r == (
                byte_of(self.colors@, self.width as int, x as int, y as int, 0),
                byte_of(self.colors@, self.width as int, x as int, y as int, 1),
                byte_of(self.colors@, self.width as int, x as int, y as int, 2),
            ),
    {
        proof {
            lemma_cell_bytes(x as int, y as int, self.width as int, self.height as int, 3);
        }
        let len = self.colors.len();
        let index = (y * self.width + x) * 4;
        (self.colors[index], self.colors[index + 1], self.colors[index + 2])
    }
}

/// A drawing surface of 4-byte pixels whose size is fixed when it is made.
pub struct Buffer2DSlice {
    pub width: i32,
    pub height: i32,
    pub colors: Vec<u8>,
}

impl Buffer2DSlice {
    pub open spec fn wf(&self) -> bool {
        &&& self.width >= 0
        &&& self.height >= 0
        &&& self.colors@.len() == 4 * (self.width * self.height)
    }

    pub open spec fn in_bounds(&self, x: int, y: int) -> bool {
        0 <= x < self.width && 0 <= y < self.height
    }

    /// Channel `ch` of pixel `(x, y)`.
    pub open spec fn byte_at(&self, x: int, y: int, ch: int) -> u8 {
        byte_of(self.colors@, self.width as int, x, y, ch)
    }

    /// The bytes of the surface.
    pub open spec fn bytes(&self) -> Seq<u8> {
        self.colors@
    }

    /// A surface of `width` by `height` pixels over `color_buffer`.
    pub fn new(width: u32, height: u32, color_buffer: Vec<u8>) -> (r: Self)
        requires
            width <= i32::MAX,
            height <= i32::MAX,
            color_buffer@.len() == 4 * (width * height),
        ensures
            r.wf(),
            r.width == width,
            r.height == height,
            r.bytes() == color_buffer@,
    {
        Buffer2DSlice { colors: color_buffer, width: width as i32, height: height as i32 }
    }

    /// Hands the bytes back.
    pub fn into_colors(self) -> (r: Vec<u8>)
        ensures
            r@ == self.bytes(),
    {
        self.colors
    }

    /// Sets every byte to 0.
    pub fn clear(&mut self)
        requires
            old(self).wf(),
        ensures
            final(self).wf(),
            final(self).width == old(self).width,
            final(self).height == old(self).height,
            final(self).bytes().len() == old(self).bytes().len(),
            forall|i: int| 0 <= i < final(self).bytes().len() ==> final(self).bytes()[i] == 0,
    {
        fill_zero(&mut self.colors);
    }

    /// Writes `c` at pixel `(x, y)`; a point outside the surface is ignored.
    pub fn set_color_xy(&mut self, x: i32, y: i32, c: &Rgb)
        requires
            old(self).wf(),
        ensures
            final(self).wf(),
            final(self).width == old(self).width,
            final(self).height == old(self).height,
            forall|px: int, py: int, ch: int|
                old(self).in_bounds(px, py) && 0 <= ch < 4 ==> #[trigger] final(self).byte_at(
                    px,
                    py,
                    ch,
                ) == after_put(
                    old(self).byte_at(px, py, ch),
                    px,
                    py,
                    ch,
                    x as int,
                    y as int,
                    opaque(*c),
                ),
    {
        if x >= 0 && x < self.width && y >= 0 && y < self.height {
            self.put_pixel(x as i64, y as i64, (c.0, c.1, c.2, u8::MAX));
        }
    }

    /// Writes the four channels of `c` at pixel `(x, y)`.
    fn put_pixel(&mut self, x: i64, y: i64, c: Rgba)
        requires
            old(self).wf(),
            old(self).in_bounds(x as int, y as int),
        ensures
            final(self).wf(),
            final(self).width == old(self).width,
            final(self).height == old(self).height,
            forall|px: int, py: int, ch: int|
                old(self).in_bounds(px, py) && 0 <= ch < 4 ==> #[trigger] final(self).byte_at(
                    px,
                    py,
                    ch,
                ) == after_put(old(self).byte_at(px, py, ch), px, py, ch, x as int, y as int, c),
    {
        proof {
            lemma_index_in_grid(x as int, y as int, self.width as int, self.height as int);
            lemma_mul_i32(y as int, self.width as int);
            lemma_put_rgba(self.colors@, self.width as int, self.height as int, x as int, y as int, c);
        }
        let len = self.colors.len();
        let index = (y as usize * self.width as usize + x as usize) * 4;
        write_rgba(&mut self.colors, index, c);
        assert(self.colors@ == put_rgba(
            old(self).colors@,
            index_of(x as int, y as int, self.width as int),
            c,
        ));
    }

    /// Writes `c`, with an opaque alpha, at the 4 bytes that start at `index`.
    pub fn set_color_by_index(&mut self, index: usize, c: &Rgb)
        requires
            index + 4 <= old(self).bytes().len(),
        ensures
            final(self).bytes() == old(self).bytes().update(index as int, c.0).update(
                index + 1,
                c.1,
            ).update(index + 2, c.2).update(index + 3, u8::MAX),
            final(self).width == old(self).width,
            final(self).height == old(self).height,
    {
        write_rgba(&mut self.colors, index, (c.0, c.1, c.2, u8::MAX));
    }
}

/// Sets every byte of `v` to 0.
pub fn fill_zero(v: &mut Vec<u8>)
    ensures
        final(v)@.len() == old(v)@.len(),
        forall|i: int| 0 <= i < final(v)@.len() ==> final(v)@[i] == 0,
{
    let mut i: usize = 0;
    while i < v.len()
        invariant
            i <= v@.len(),
            v@.len() == old(v)@.len(),
            forall|j: int| 0 <= j < i ==> v@[j] == 0,
        decreases v@.len() - i,
    {
        v.set(i, 0);
        i = i + 1;
    }
}

impl Buffer2DSlice {
    /// Writes `c` at each of `pts` that lies in the surface.
    pub fn plot_points(&mut self, pts: &Vec<Point2>, c: &Rgb)
        requires
            old(self).wf(),
        ensures
            final(self).wf(),
            final(self).width == old(self).width,
            final(self).height == old(self).height,
            forall|x: int, y: int, ch: int|
                old(self).in_bounds(x, y) && 0 <= ch < 4 ==> #[trigger] final(self).byte_at(
                    x,
                    y,
                    ch,
                ) == if among(pts@, x, y) {
                    channel4(opaque(*c), ch)
                } else {
                    old(self).byte_at(x, y, ch)
                },
    {
        let ghost old_self = *self;
        let mut i: usize = 0;
        while i < pts.len()
            invariant
                self.wf(),
                self.width == old_self.width,
                self.height == old_self.height,
                i <= pts@.len(),
                forall|x: int, y: int, ch: int|
                    old_self.in_bounds(x, y) && 0 <= ch < 4 ==> #[trigger] self.byte_at(x, y, ch)
                        == if among(pts@.subrange(0, i as int), x, y) {
                        channel4(opaque(*c), ch)
                    } else {
                        old_self.byte_at(x, y, ch)
                    },
            decreases pts@.len() - i,
        {
            let p = pts[i];
            self.set_color_xy(p.x, p.y, c);
            proof {
                let s0 = pts@.subrange(0, i as int);
                let s1 = pts@.subrange(0, i + 1);
                assert forall|x: int, y: int| old_self.in_bounds(x, y) implies among(s1, x, y) == (
                among(s0, x, y) || (x == p.x && y == p.y)) by {
                    if among(s1, x, y) {
                        let k = choose|k: int|
                            0 <= k < s1.len() && (#[trigger] s1[k].x as int, s1[k].y as int) == (
                            x, y);
                        if k < i {
                            assert(s0[k] == s1[k]);
                        }
                    }
                    if among(s0, x, y) {
                        let k = choose|k: int|
                            0 <= k < s0.len() && (#[trigger] s0[k].x as int, s0[k].y as int) == (
                            x, y);
                        assert(s0[k] == s1[k]);
                    }
                    if x == p.x && y == p.y {
                        assert(s1[i as int] == p);
                    }
                }
            }
            i = i + 1;
        }
        assert(pts@.subrange(0, i as int) =~= pts@);
    }

    /// Draws the line from `p0` to `p1` in color `c`, both endpoints first
    /// moved into the surface.
    pub fn draw_line_2d(&mut self, p0: Point2, p1: Point2, c: &Rgb)
        requires
            old(self).wf(),
            old(self).width > 0,
            old(self).height > 0,
        ensures
            final(self).wf(),
            final(self).width == old(self).width,
            final(self).height == old(self).height,
            forall|x: int, y: int, ch: int|
                old(self).in_bounds(x, y) && 0 <= ch < 4 ==> #[trigger] final(self).byte_at(
                    x,
                    y,
                    ch,
                ) == if on_line(
                    clamp_point(p0, old(self).width, old(self).height),
                    clamp_point(p1, old(self).width, old(self).height),
                    x,
                    y,
                ) {
                    channel4(opaque(*c), ch)
                } else {
                    old(self).byte_at(x, y, ch)
                },
    {
        let q0 = Point2 {
            x: clamp_i32(p0.x, 0, self.width - 1),
            y: clamp_i32(p0.y, 0, self.height - 1),
        };
        let q1 = Point2 {
            x: clamp_i32(p1.x, 0, self.width - 1),
            y: clamp_i32(p1.y, 0, self.height - 1),
        };
        let pts = line_points(q0, q1);
        self.plot_points(&pts, c);
        proof {
            assert forall|x: int, y: int| old(self).in_bounds(x, y) implies among(pts@, x, y)
                == on_line(q0, q1, x, y) by {
                lemma_line_points_among(q0, q1, pts@, x, y);
            }
        }
    }

    /// Copies an image of `source_width` by `source_height` 4-byte pixels so
    /// that its corner lands at `(offset_x, offset_y)`; what falls outside the
    /// surface is left out.
    fn blit(
        &mut self,
        source: &[u8],
        source_width: i32,
        source_height: i32,
        offset_x: i32,
        offset_y: i32,
    )
        requires
            old(self).wf(),
            source_width >= 0,
            source_height >= 0,
            source@.len() == 4 * (source_width * source_height),
        ensures
            final(self).wf(),
            final(self).width == old(self).width,
            final(self).height == old(self).height,
            forall|x: int, y: int, ch: int|
                old(self).in_bounds(x, y) && 0 <= ch < 4 ==> #[trigger] final(self).byte_at(
                    x,
                    y,
                    ch,
                ) == if in_span(x, offset_x as int, source_width as int) && in_span(
                    y,
                    offset_y as int,
                    source_height as int,
                ) {
                    byte_of(source@, source_width as int, x - offset_x, y - offset_y, ch)
                } else {
                    old(self).byte_at(x, y, ch)
                },
    {
        let ghost old_self = *self;
        let ox = offset_x as i64;
        let oy = offset_y as i64;
        let x0: i64 = if ox < 0 { 0 } else { ox };
        let y0: i64 = if oy < 0 { 0 } else { oy };
        let x1: i64 = if ox + source_width as i64 > self.width as i64 {
            self.width as i64
        } else {
            ox + source_width as i64
        };
        let y1: i64 = if oy + source_height as i64 > self.height as i64 {
            self.height as i64
        } else {
            oy + source_height as i64
        };
        let source_len = source.len();
        let sw = source_width as usize;
        let mut y = y0;
        while y < y1
            invariant
                self.wf(),
                self.width == old_self.width,
                self.height == old_self.height,
                source_len == source@.len(),
                source_width >= 0,
                source_height >= 0,
                source@.len() == 4 * (source_width * source_height),
                sw == source_width,
                ox == offset_x && oy == offset_y,
                x0 == crate::math::max_int(ox as int, 0),
                y0 == crate::math::max_int(oy as int, 0),
                x1 == crate::math::min_int(ox + source_width, self.width as int),
                y1 == crate::math::min_int(oy + source_height, self.height as int),
                y0 <= y,
                forall|px: int, py: int, ch: int|
                    old_self.in_bounds(px, py) && 0 <= ch < 4 ==> #[trigger] self.byte_at(px, py, ch)
                        == if in_span(px, ox as int, source_width as int) && in_span(
                        py,
                        oy as int,
                        source_height as int,
                    ) && py < y {
                        byte_of(source@, source_width as int, px - ox, py - oy, ch)
                    } else {
                        old_self.byte_at(px, py, ch)
                    },
            decreases y1 - y,
        {
            let mut x = x0;
            while x < x1
                invariant
                    self.wf(),
                    self.width == old_self.width,
                    self.height == old_self.height,
                    source_len == source@.len(),
                    source_width >= 0,
                    source_height >= 0,
                    source@.len() == 4 * (source_width * source_height),
                    sw == source_width,
                    ox == offset_x && oy == offset_y,
                    x0 == crate::math::max_int(ox as int, 0),
                    y0 == crate::math::max_int(oy as int, 0),
                    x1 == crate::math::min_int(ox + source_width, self.width as int),
                    y1 == crate::math::min_int(oy + source_height, self.height as int),
                    y0 <= y < y1,
                    x0 <= x,
                    forall|px: int, py: int, ch: int|
                        old_self.in_bounds(px, py) && 0 <= ch < 4 ==> #[trigger] self.byte_at(
                            px,
                            py,
                            ch,
                        ) == if in_span(px, ox as int, source_width as int) && in_span(
                            py,
                            oy as int,
                            source_height as int,
                        ) && (py < y || (py == y && px < x)) {
                            byte_of(source@, source_width as int, px - ox, py - oy, ch)
                        } else {
                            old_self.byte_at(px, py, ch)
                        },
                decreases x1 - x,
            {
                let row = (y - oy) as usize;
                let col = (x - ox) as usize;
                proof {
                    lemma_cell_bytes(
                        col as int,
                        row as int,
                        source_width as int,
                        source_height as int,
                        3,
                    );
                }
                let si = (row * sw + col) * 4;
                let c: Rgba = (source[si], source[si + 1], source[si + 2], source[si + 3]);
                assert forall|ch: int| 0 <= ch < 4 implies channel4(c, ch) == byte_of(
                    source@,
                    source_width as int,
                    x - ox,
                    y - oy,
                    ch,
                ) by {}
                self.put_pixel(x, y, c);
                x = x + 1;
            }
            y = y + 1;
        }
    }

    /// Copies the whole of `buffer` so that its corner lands at `(offset_x, offset_y)`.
    pub fn blit_buffer(&mut self, buffer: &Buffer2D, offset_x: i32, offset_y: i32)
        requires
            old(self).wf(),
            buffer.wf(),
            buffer.width <= i32::MAX,
            buffer.height <= i32::MAX,
        ensures
            final(self).wf(),
            final(self).width == old(self).width,
            final(self).height == old(self).height,
            forall|x: int, y: int, ch: int|
                old(self).in_bounds(x, y) && 0 <= ch < 4 ==> #[trigger] final(self).byte_at(
                    x,
                    y,
                    ch,
                ) == if in_span(x, offset_x as int, buffer.width as int) && in_span(
                    y,
                    offset_y as int,
                    buffer.height as int,
                ) {
                    byte_of(buffer.colors@, buffer.width as int, x - offset_x, y - offset_y, ch)
                } else {
                    old(self).byte_at(x, y, ch)
                },
    {
        self.blit(
            buffer.colors.as_slice(),
            buffer.width as i32,
            buffer.height as i32,
            offset_x,
            offset_y,
        )
    }

    /// Copies the image of `virtual_window` to its place on this surface.
    pub fn blit_virtual_window(&mut self, virtual_window: &VirtualWindow)
        requires
            old(self).wf(),
            virtual_window.buffer.wf(),
            virtual_window.buffer.width <= i32::MAX,
            virtual_window.buffer.height <= i32::MAX,
        ensures
            final(self).wf(),
            final(self).width == old(self).width,
            final(self).height == old(self).height,
            forall|x: int, y: int, ch: int|
                old(self).in_bounds(x, y) && 0 <= ch < 4 ==> #[trigger] final(self).byte_at(
                    x,
                    y,
                    ch,
                ) == if in_span(x, virtual_window.x as int, virtual_window.buffer.width as int)
                    && in_span(y, virtual_window.y as int, virtual_window.buffer.height as int) {
                    byte_of(
                        virtual_window.buffer.colors@,
                        virtual_window.buffer.width as int,
                        x - virtual_window.x,
                        y - virtual_window.y,
                        ch,
                    )
                } else {
                    old(self).byte_at(x, y, ch)
                },
    {
        self.blit_buffer(&virtual_window.buffer, virtual_window.x, virtual_window.y)
    }
}

/// An image with a place on the screen.
pub struct VirtualWindow {
    pub x: i32,
    pub y: i32,
    pub buffer: Buffer2D,
}

impl VirtualWindow {
    /// A black, fully transparent image of `width` by `height` pixels at `(x, y)`.
    pub fn new(x: i32, y: i32, width: usize, height: usize) -> (r: Self)
        requires
            4 * (width * height) <= usize::MAX,
        ensures
            r.x == x,
            r.y == y,
            r.buffer.wf(),
            r.buffer.width == width,
            r.buffer.height == height,
            forall|i: int| 0 <= i < r.buffer.colors@.len() ==> r.buffer.colors@[i] == 0,
    {
        VirtualWindow { x, y, buffer: Buffer2D::new(width, height, vec![0; width * height * 4]) }
    }

    /// The window's image as a drawing surface.
    pub fn get_buffer_slice(self) -> (r: Buffer2DSlice)
        requires
            self.buffer.wf(),
            self.buffer.width <= i32::MAX,
            self.buffer.height <= i32::MAX,
        ensures
            r.wf(),
            r.width == self.buffer.width,
            r.height == self.buffer.height,
            r.bytes() == self.buffer.colors@,
    {
        let width = self.buffer.width as u32;
        let height = self.buffer.height as u32;
        Buffer2DSlice::new(width, height, self.buffer.colors)
    }
}

/// A decoded image of 4-byte pixels.
pub struct Texture {
    pub width: usize,
    pub height: usize,
    pub colors: Vec<u8>,
}

impl Texture {
    /// A texture of the given size over `colors`.
    pub fn new(width: usize, height: usize, colors: Vec<u8>) -> (r: Self)
        ensures
            r.width == width,
            r.height == height,
            r.colors@ == colors@,
    {
        Texture { width, height, colors }
    }
}

} // verus!
