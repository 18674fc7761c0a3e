use vstd::prelude::*;
use vstd::string::StrSliceExecFns;

use crate::buffer2d::{B2D, B2DO};

verus! {

/// The first character with a glyph, the space, whose glyph is never drawn.
pub const CHARS_FIRST: usize = 32;

/// The end of the characters with a glyph.
pub const CHARS_LAST: usize = 0x7f;

/// How many glyphs a font holds.
pub const CHARS_COUNT: usize = 95;

/// The pixels of one character: a position within the glyph cell and a color.
pub struct Glyph(pub Vec<(i32, i32, u16)>);

/// A bitmap font: one glyph for each character from the space to `~`, all in
/// cells of `glyph_size` pixels.
pub struct Font {
    pub glyphs: Vec<Glyph>,
    pub glyph_size: (i32, i32),
}

/// Where the glyph of character number `u` (counted from the space) lies in
/// a font bitmap `len` cells wide, the first cell at `(offset_x, offset_y)`.
pub open spec fn glyph_origin(
    u: int,
    len: int,
    offset_x: int,
    offset_y: int,
    size: (i32, i32),
) -> (int, int) {
    (((u % len) + offset_x) * size.0, ((u / len) + offset_y) * size.1)
}

/// Whether every glyph cell lies inside the bitmap.
pub open spec fn glyphs_fit(bitmap: B2D, size: (i32, i32), offset_x: int, offset_y: int) -> bool {
    let len = bitmap.width as int / size.0 as int;
    forall|u: int|
        0 <= u < CHARS_COUNT ==> {
            let o = #[trigger] glyph_origin(u, len, offset_x, offset_y, size);
            0 <= o.0 && o.0 + size.0 <= bitmap.width && 0 <= o.1 && o.1 + size.1 <= bitmap.height
        }
}

impl Font {
    /// One glyph per character.
    pub open spec fn wf(&self) -> bool {
        &&& self.glyphs@.len() == CHARS_COUNT
        &&& self.glyph_size.0 > 0
        &&& self.glyph_size.1 > 0
    }

    /// Cuts the glyphs from `bitmap`, one cell of `glyph_size` each, row by
    /// row from the cell at `(offset_x, offset_y)`. A glyph keeps the pixels
    /// of its cell that are not 0.
    pub fn new(bitmap: B2DO, glyph_size: (i32, i32), offset_x: i32, offset_y: i32) -> (r: Self)
        requires
            bitmap.wf(),
            glyph_size.0 > 0,
            glyph_size.1 > 0,
            bitmap.width >= glyph_size.0,
            offset_x >= 0,
            offset_y >= 0,
            glyphs_fit(bitmap, glyph_size, offset_x as int, offset_y as int),
        ensures
            r.wf(),
            r.glyph_size == glyph_size,
            forall|u: int, k: int|
                0 <= u < CHARS_COUNT && 0 <= k < r.glyphs@[u].0@.len() ==> {
                    let e = #[trigger] r.glyphs@[u].0@[k];
                    let o = glyph_origin(
                        u,
                        bitmap.width as int / glyph_size.0 as int,
                        offset_x as int,
                        offset_y as int,
                        glyph_size,
                    );
                    &&& 0 <= e.0 < glyph_size.0
                    &&& 0 <= e.1 < glyph_size.1
                    &&& e.2 != 0
                    &&& e.2 == bitmap.at(o.0 + e.0, o.1 + e.1)
                },
    {
        let len = bitmap.width / glyph_size.0;
        assert(len >= 1) by (nonlinear_arith)
            requires
                len == bitmap.width / glyph_size.0,
                bitmap.width >= glyph_size.0,
                glyph_size.0 > 0,
        ;
        let mut glyphs: Vec<Glyph> = Vec::new();
        let mut u: usize = 0;
        while u < CHARS_COUNT
            invariant
                bitmap.wf(),
                glyph_size.0 > 0 && glyph_size.1 > 0,
                len == bitmap.width / glyph_size.0,
                len >= 1,
                offset_x >= 0 && offset_y >= 0,
                glyphs_fit(bitmap, glyph_size, offset_x as int, offset_y as int),
                u <= CHARS_COUNT,
                glyphs@.len() == u,
                forall|v: int, k: int|
                    0 <= v < u && 0 <= k < glyphs@[v].0@.len() ==> {
                        let e = #[trigger] glyphs@[v].0@[k];
                        let o = glyph_origin(
                            v,
                            len as int,
                            offset_x as int,
                            offset_y as int,
                            glyph_size,
                        );
                        &&& 0 <= e.0 < glyph_size.0
                        &&& 0 <= e.1 < glyph_size.1
                        &&& e.2 != 0
                        &&& e.2 == bitmap.at(o.0 + e.0, o.1 + e.1)
                    },
            decreases CHARS_COUNT - u,
        {
            let ghost o = glyph_origin(u as int, len as int, offset_x as int, offset_y as int, glyph_size);
            assert(0 <= o.0 && o.0 + glyph_size.0 <= bitmap.width && 0 <= o.1 && o.1 + glyph_size.1 <= bitmap.height);
            let cx = (u as i64) % (len as i64) + offset_x as i64;
            let cy = (u as i64) / (len as i64) + offset_y as i64;
            assert(0 <= cx <= 0x8000_0000 + 95 && 0 <= cy <= 0x8000_0000 + 95) by (nonlinear_arith)
                requires
                    cx == (u as int) % (len as int) + offset_x,
                    cy == (u as int) / (len as int) + offset_y,
                    0 <= u < 95,
                    len >= 1,
                    0 <= offset_x < 0x8000_0000,
                    0 <= offset_y < 0x8000_0000,
            ;
            assert(cx * glyph_size.0 <= (0x8000_0000 + 95) * 0x8000_0000 && cy * glyph_size.1 <= (0x8000_0000 + 95) * 0x8000_0000) by (nonlinear_arith)
                requires
                    0 <= cx <= 0x8000_0000 + 95,
                    0 <= cy <= 0x8000_0000 + 95,
                    0 < glyph_size.0 < 0x8000_0000,
                    0 < glyph_size.1 < 0x8000_0000,
            ;
            let gx = (cx * glyph_size.0 as i64) as i32;
            let gy = (cy * glyph_size.1 as i64) as i32;
            assert(gx == o.0 && gy == o.1);
            let mut pixels: Vec<(i32, i32, u16)> = Vec::new();
            let mut x: i32 = 0;
            while x < glyph_size.0
                invariant
                    bitmap.wf(),
                    0 <= gx && gx + glyph_size.0 <= bitmap.width,
                    0 <= gy && gy + glyph_size.1 <= bitmap.height,
                    glyph_size.0 > 0 && glyph_size.1 > 0,
                    0 <= x <= glyph_size.0,
                    forall|k: int|
                        0 <= k < pixels@.len() ==> {
                            let e = #[trigger] pixels@[k];
                            &&& 0 <= e.0 < glyph_size.0
                            &&& 0 <= e.1 < glyph_size.1
                            &&& e.2 != 0
                            &&& e.2 == bitmap.at(gx + e.0, gy + e.1)
                        },
                decreases glyph_size.0 - x,
            {
                let mut y: i32 = 0;
                while y < glyph_size.1
                    invariant
                        bitmap.wf(),
                        0 <= gx && gx + glyph_size.0 <= bitmap.width,
                        0 <= gy && gy + glyph_size.1 <= bitmap.height,
                        glyph_size.0 > 0 && glyph_size.1 > 0,
                        0 <= x < glyph_size.0,
                        0 <= y <= glyph_size.1,
                        forall|k: int|
                            0 <= k < pixels@.len() ==> {
                                let e = #[trigger] pixels@[k];
                                &&& 0 <= e.0 < glyph_size.0
                                &&& 0 <= e.1 < glyph_size.1
                                &&& e.2 != 0
                                &&& e.2 == bitmap.at(gx + e.0, gy + e.1)
                            },
                    decreases glyph_size.1 - y,
                {
                    proof {
                        crate::buffer2d::lemma_index_in_grid(
                            (gx + x) as int,
                            (gy + y) as int,
                            bitmap.width as int,
                            bitmap.height as int,
                        );
                    }
                    let color = bitmap.get_color((gx + x) as usize, (gy + y) as usize);
                    if color != 0 {
                        pixels.push((x, y, color));
                    }
                    y = y + 1;
                }
                x = x + 1;
            }
            glyphs.push(Glyph(pixels));
            u = u + 1;
        }
        Font { glyphs, glyph_size }
    }
}

/// The glyph number of character `c`, if it has one that is drawn.
pub open spec fn glyph_index(c: char) -> Option<int> {
    let u = c as int;
    if u <= CHARS_FIRST || u >= CHARS_LAST {
        None
    } else {
        Some(u - CHARS_FIRST)
    }
}

/// The color that the last of the first `n` entries landing on `(x, y)`
/// gives, when `entries` are drawn at `offset`.
pub open spec fn last_hit(
    entries: Seq<(i32, i32, u16)>,
    n: int,
    offset: (i32, i32),
    x: int,
    y: int,
) -> Option<u16>
    decreases n,
{
    if n <= 0 {
        None
    } else {
        let e = entries[n - 1];
        if e.0 + offset.0 == x && e.1 + offset.1 == y {
            Some(e.2)
        } else {
            last_hit(entries, n - 1, offset, x, y)
        }
    }
}

/// The color that drawing character `c` at `offset` puts at `(x, y)`, if any.
pub open spec fn char_hit(font: &Font, c: char, offset: (i32, i32), x: int, y: int) -> Option<u16> {
    match glyph_index(c) {
        None => None,
        Some(u) => {
            let entries = font.glyphs@[u].0@;
            last_hit(entries, entries.len() as int, offset, x, y)
        },
    }
}

/// Draws character `c` with its top left corner at `offset`. A character
/// without a glyph, or the space, draws nothing; pixels that fall outside
/// `dest` are skipped.
pub fn blit_char(font: &Font, dest: &mut B2D, c: char, offset: (i32, i32))
    requires
        font.wf(),
        old(dest).wf(),
    ensures
        final(dest).wf(),
        final(dest).width == old(dest).width,
        final(dest).height == old(dest).height,
        forall|x: int, y: int|
            old(dest).in_bounds(x, y) ==> #[trigger] final(dest).at(x, y) == match char_hit(
                font,
                c,
                offset,
                x,
                y,
            ) {
                Some(col) => col,
                None => old(dest).at(x, y),
            },
{
    let u = c as usize;
    if u <= CHARS_FIRST || u >= CHARS_LAST {
        return;
    }
    let glyph = &font.glyphs[u - CHARS_FIRST];
    let ghost entries = glyph.0@;
    let ghost d0 = *dest;
    let n = glyph.0.len();
    let mut i: usize = 0;
    while i < n
        invariant
            n == entries.len(),
            entries == glyph.0@,
            dest.wf(),
            dest.width == d0.width && dest.height == d0.height,
            i <= n,
            forall|x: int, y: int|
                d0.in_bounds(x, y) ==> #[trigger] dest.at(x, y) == match last_hit(
                    entries,
                    i as int,
                    offset,
                    x,
                    y,
                ) {
                    Some(col) => col,
                    None => d0.at(x, y),
                },
        decreases n - i,
    {
        let e = glyph.0[i];
        let px = e.0 as i64 + offset.0 as i64;
        let py = e.1 as i64 + offset.1 as i64;
        if px >= 0 && px < dest.width as i64 && py >= 0 && py < dest.height as i64 {
            dest.set_color(px as i32, py as i32, e.2);
        }
        i = i + 1;
    }
}

/// Whether the `k`-th character of a line drawn from `offset_x` still fits
/// in a target `width` pixels wide.
pub open spec fn col_fits(offset_x: int, k: int, glyph_w: int, width: int) -> bool {
    offset_x + k * glyph_w <= width - glyph_w
}

/// The color that the first `n` characters of `chars`, drawn side by side
/// from `offset`, put at `(x, y)`, if any; a later character over an earlier.
pub open spec fn line_hit(
    font: &Font,
    chars: Seq<char>,
    n: int,
    offset: (i32, i32),
    x: int,
    y: int,
) -> Option<u16>
    decreases n,
{
    if n <= 0 {
        None
    } else {
        match char_hit(
            font,
            chars[n - 1],
            ((offset.0 + (n - 1) * font.glyph_size.0) as i32, offset.1),
            x,
            y,
        ) {
            Some(col) => Some(col),
            None => line_hit(font, chars, n - 1, offset, x, y),
        }
    }
}

/// `after` is `before` with the first `n` characters of `chars` drawn side
/// by side from `offset`, where `n` counts the characters that fit in the
/// width, up to the first that does not.
pub open spec fn drawn_line(
    font: &Font,
    chars: Seq<char>,
    offset: (i32, i32),
    before: B2D,
    after: B2D,
    n: int,
) -> bool {
    &&& 0 <= n <= chars.len()
    &&& forall|k: int|
        0 <= k < n ==> #[trigger] col_fits(
            offset.0 as int,
            k,
            font.glyph_size.0 as int,
            before.width as int,
        )
    &&& n < chars.len() ==> !col_fits(
        offset.0 as int,
        n,
        font.glyph_size.0 as int,
        before.width as int,
    )
    &&& forall|x: int, y: int|
        before.in_bounds(x, y) ==> #[trigger] after.at(x, y) == match line_hit(
            font,
            chars,
            n,
            offset,
            x,
            y,
        ) {
            Some(col) => col,
            None => before.at(x, y),
        }
}

/// Draws `s` on one line from `offset`, one glyph cell per character, and
/// stops at the first character that would not fit in `dest`'s width.
pub fn blit_str(font: &Font, dest: &mut B2D, s: &str, offset: (i32, i32))
    requires
        font.wf(),
        old(dest).wf(),
    ensures
        final(dest).wf(),
        final(dest).width == old(dest).width,
        final(dest).height == old(dest).height,
        exists|n: int| #[trigger] drawn_line(font, s@, offset, *old(dest), *final(dest), n),
{
    let ghost d0 = *old(dest);
    let len = s.unicode_len();
    let gw = font.glyph_size.0 as i64;
    let mut col: usize = 0;
    let mut stopped = false;
    while col < len && !stopped
        invariant
            font.wf(),
            len == s@.len(),
            gw == font.glyph_size.0,
            d0 == *old(dest),
            dest.wf(),
            dest.width == d0.width && dest.height == d0.height,
            col <= len,
            stopped ==> !col_fits(offset.0 as int, col as int, gw as int, d0.width as int),
            forall|k: int|
                0 <= k < col ==> #[trigger] col_fits(offset.0 as int, k, gw as int, d0.width as int),
            forall|x: int, y: int|
                d0.in_bounds(x, y) ==> #[trigger] dest.at(x, y) == match line_hit(
                    font,
                    s@,
                    col as int,
                    offset,
                    x,
                    y,
                ) {
                    Some(c) => c,
                    None => d0.at(x, y),
                },
        decreases len - col, if stopped { 0int } else { 1int },
    {
        if col > 0 {
            assert(col_fits(offset.0 as int, col - 1, gw as int, d0.width as int));
        }
        assert(col <= 0x1_0000_0001 && offset.0 + col * gw <= 0x8000_0000 + 0x8000_0000 * 0x8000_0000) by (nonlinear_arith)
            requires
                col == 0 || offset.0 + (col - 1) * gw <= d0.width - gw,
                0 < gw < 0x8000_0000,
                d0.width < 0x8000_0000,
                -0x8000_0000 <= offset.0 < 0x8000_0000,
        ;
        assert(offset.0 + col * gw >= -0x8000_0000) by (nonlinear_arith)
            requires
                col >= 0,
                gw > 0,
                offset.0 >= -0x8000_0000,
        ;
        let dest_x = offset.0 as i64 + col as i64 * gw;
        if dest_x > dest.width as i64 - gw {
            stopped = true;
        } else {
            let c = s.get_char(col);
            blit_char(font, dest, c, (dest_x as i32, offset.1));
            col = col + 1;
        }
    }
    assert(drawn_line(font, s@, offset, d0, *dest, col as int));
}

/// The largest magnitude that the layout's positions are kept within.
pub const LAYOUT_LIMIT: i64 = 0x100_0000_0000;

/// `a + b`, kept within `LAYOUT_LIMIT`.
fn layout_add(a: i64, b: i64) -> (r: i64)
    requires
        -LAYOUT_LIMIT <= a <= LAYOUT_LIMIT,
        -LAYOUT_LIMIT <= b <= LAYOUT_LIMIT,
    ensures
        -LAYOUT_LIMIT <= r <= LAYOUT_LIMIT,
        -LAYOUT_LIMIT <= a + b <= LAYOUT_LIMIT ==> r == a + b,
{
    let v = a + b;
    if v > LAYOUT_LIMIT {
        LAYOUT_LIMIT
    } else if v < -LAYOUT_LIMIT {
        -LAYOUT_LIMIT
    } else {
        v
    }
}

/// `n * g`, kept within `LAYOUT_LIMIT`.
fn layout_mul(n: i64, g: i64) -> (r: i64)
    requires
        -LAYOUT_LIMIT <= n <= LAYOUT_LIMIT,
        0 < g < 0x8000_0000,
    ensures
        -LAYOUT_LIMIT <= r <= LAYOUT_LIMIT,
        -LAYOUT_LIMIT <= n * g <= LAYOUT_LIMIT ==> r == n * g,
{
    if n > LAYOUT_LIMIT / g {
        assert(n * g > LAYOUT_LIMIT) by (nonlinear_arith)
            requires
                n > LAYOUT_LIMIT / g,
                g > 0,
        ;
        LAYOUT_LIMIT
    } else if n < -(LAYOUT_LIMIT / g) {
        assert(n * g < -LAYOUT_LIMIT) by (nonlinear_arith)
            requires
                n < -(LAYOUT_LIMIT / g),
                g > 0,
        ;
        -LAYOUT_LIMIT
    } else {
        assert(-LAYOUT_LIMIT <= n * g <= LAYOUT_LIMIT) by (nonlinear_arith)
            requires
                -(LAYOUT_LIMIT / g) <= n <= LAYOUT_LIMIT / g,
                g > 0,
        ;
        n * g
    }
}

/// Moves the picture up by `rows` rows; the rows that come in at the
/// bottom are 0.
pub fn scroll_up(dest: &mut B2D, rows: usize)
    requires
        old(dest).wf(),
    ensures
        final(dest).wf(),
        final(dest).width == old(dest).width,
        final(dest).height == old(dest).height,
        forall|x: int, y: int|
            old(dest).in_bounds(x, y) ==> #[trigger] final(dest).at(x, y) == if y + rows < old(
                dest,
            ).height {
                old(dest).at(x, y + rows)
            } else {
                0
            },
{
    let ghost d0 = *old(dest);
    let w = dest.width as usize;
    let h = dest.height as usize;
    let r = if rows > h {
        h
    } else {
        rows
    };
    let mut y: usize = 0;
    while y < h
        invariant
            d0 == *old(dest),
            dest.wf(),
            dest.width == d0.width && dest.height == d0.height,
            w == d0.width && h == d0.height,
            r <= h,
            r == rows || (rows > h && r == h),
            y <= h,
            forall|px: int, py: int|
                d0.in_bounds(px, py) ==> #[trigger] dest.at(px, py) == if py < y {
                    if py + rows < h {
                        d0.at(px, py + rows)
                    } else {
                        0
                    }
                } else {
                    d0.at(px, py)
                },
        decreases h - y,
    {
        let mut x: usize = 0;
        while x < w
            invariant
                d0 == *old(dest),
                dest.wf(),
                dest.width == d0.width && dest.height == d0.height,
                w == d0.width && h == d0.height,
                r <= h,
                r == rows || (rows > h && r == h),
                y < h,
                x <= w,
                forall|px: int, py: int|
                    d0.in_bounds(px, py) ==> #[trigger] dest.at(px, py) == if py < y || (py == y
                        && px < x) {
                        if py + rows < h {
                            d0.at(px, py + rows)
                        } else {
                            0
                        }
                    } else {
                        d0.at(px, py)
                    },
            decreases w - x,
        {
            let v = if y + r < h {
                let i = dest.cell_of(x, y + r);
                assert(dest.at(x as int, (y + r) as int) == d0.at(x as int, (y + r) as int));
                dest.pixels[i]
            } else {
                0
            };
            dest.set_color(x as i32, y as i32, v);
            x = x + 1;
        }
        y = y + 1;
    }
}

/// Draws `string` word by word from `offset`, wrapping at `dest`'s width.
/// A word that does not fit on the rest of a line starts a new line; a word
/// wider than the whole line is broken between characters. A new line
/// starts `wrap_new_line_spaces` cells in; a line break character starts
/// one too. When the text runs past the bottom, `scroll` moves the picture
/// up to make room, and otherwise the drawing stops. The result is how far
/// down the last line is from `offset`.
pub fn blit_str_wrap(
    font: &Font,
    dest: &mut B2D,
    string: &str,
    offset: (i32, i32),
    wrap_new_line_spaces: i32,
    scroll: bool,
) -> (r: i32)
    requires
        font.wf(),
        old(dest).wf(),
    ensures
        final(dest).wf(),
        final(dest).width == old(dest).width,
        final(dest).height == old(dest).height,
{
    let len = string.unicode_len();
    let gw = font.glyph_size.0 as i64;
    let gh = font.glyph_size.1 as i64;
    let width = dest.width as i64;
    let height = dest.height as i64;
    let wrap = wrap_new_line_spaces as i64;
    let ox = offset.0 as i64;
    let oy = offset.1 as i64;
    let max_width = width - ox;
    let mut col: i64 = 0;
    let mut dest_y: i64 = oy;
    let mut i: usize = 0;
    let mut finished = false;
    while !finished
        invariant
            font.wf(),
            dest.wf(),
            dest.width == old(dest).width && dest.height == old(dest).height,
            len == string@.len(),
            gw == font.glyph_size.0 && gh == font.glyph_size.1,
            width == dest.width && height == dest.height,
            0 < gw < 0x8000_0000 && 0 < gh < 0x8000_0000,
            -0x8000_0000 <= wrap < 0x8000_0000,
            -0x8000_0000 <= ox < 0x8000_0000 && -0x8000_0000 <= oy < 0x8000_0000,
            max_width == width - ox,
            -LAYOUT_LIMIT <= col <= LAYOUT_LIMIT,
            -LAYOUT_LIMIT <= dest_y <= LAYOUT_LIMIT,
            i <= len,
            !finished ==> i <= len,
        decreases len - i, if finished { 0int } else { 1int },
    {
        let mut j = i;
        while j < len && string.get_char(j) != ' '
            invariant
                len == string@.len(),
                i <= j <= len,
            decreases len - j,
        {
            j = j + 1;
        }
        let word_len: i64 = if j - i > LAYOUT_LIMIT as usize {
            LAYOUT_LIMIT
        } else {
            (j - i) as i64
        };
        let word_width = layout_mul(word_len, gw);
        let mut char_wrap = false;
        let used = layout_mul(col, gw);
        if word_width > max_width {
            char_wrap = true;
        } else if max_width - used - word_width <= 0 {
            col = wrap;
            dest_y = layout_add(dest_y, gh);
        }
        let mut k = i;
        while k < j && !finished
            invariant
                font.wf(),
                dest.wf(),
                dest.width == old(dest).width && dest.height == old(dest).height,
                len == string@.len(),
                gw == font.glyph_size.0 && gh == font.glyph_size.1,
                width == dest.width && height == dest.height,
                0 < gw < 0x8000_0000 && 0 < gh < 0x8000_0000,
                -0x8000_0000 <= wrap < 0x8000_0000,
                -0x8000_0000 <= ox < 0x8000_0000 && -0x8000_0000 <= oy < 0x8000_0000,
                -LAYOUT_LIMIT <= col <= LAYOUT_LIMIT,
                -LAYOUT_LIMIT <= dest_y <= LAYOUT_LIMIT,
                i <= k <= j <= len,
            decreases j - k, if finished { 0int } else { 1int },
        {
            let c = string.get_char(k);
            k = k + 1;
            if c == '\n' {
                col = wrap;
                dest_y = layout_add(dest_y, gh);
            } else {
                let cells = layout_mul(col, gw);
                let mut dest_x = layout_add(ox, cells);
                let mut skip = false;
                if char_wrap && dest_x > width - gw {
                    col = wrap;
                    dest_y = layout_add(dest_y, gh);
                    if c == ' ' {
                        skip = true;
                    }
                    dest_x = layout_add(ox, layout_mul(wrap, gw));
                }
                if !skip {
                    if dest_y + gh > height {
                        if scroll {
                            let amount = dest_y + gh - height;
                            dest_y = dest_y - amount;
                            let rows = if amount > height {
                                height as usize
                            } else {
                                amount as usize
                            };
                            scroll_up(dest, rows);
                        } else {
                            finished = true;
                        }
                    }
                    if !finished {
                        if -0x8000_0000 <= dest_x && dest_x < 0x8000_0000 && -0x8000_0000 <= dest_y
                            && dest_y < 0x8000_0000 {
                            blit_char(font, dest, c, (dest_x as i32, dest_y as i32));
                        }
                        col = layout_add(col, 1);
                    }
                }
            }
        }
        col = layout_add(col, 1);
        if finished || j >= len {
            finished = true;
        } else {
            i = j + 1;
        }
    }
    let advance = dest_y - oy;
    if advance > i32::MAX as i64 {
        i32::MAX
    } else if advance < i32::MIN as i64 {
        i32::MIN
    } else {
        advance as i32
    }
}

} // verus!
