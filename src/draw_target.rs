use vstd::prelude::*;

use crate::line::{among, lemma_line_points_among, line_points, on_line};
use crate::math::Point2;
use crate::rgba::{after_put, channel4, opaque, Buffer2DSlice, Rgb};
use crate::utils::{index_of, lemma_mul_i32};

verus! {

/// A frame of 4-byte pixels that drawing calls write into; every write is
/// checked against the frame's bounds.
pub struct DrawTarget {
    pub surface: Buffer2DSlice,
}

impl DrawTarget {
    pub open spec fn wf(&self) -> bool {
        self.surface.wf()
    }

    /// A target of `width` by `height` pixels over `color_buffer`.
    pub fn new(color_buffer: Vec<u8>, width: u32, height: u32) -> (r: Self)
        requires
            width <= i32::MAX,
            height <= i32::MAX,
            color_buffer@.len() == 4 * (width * height),
        ensures
            r.wf(),
            r.surface.width == width,
            r.surface.height == height,
            r.surface.bytes() == color_buffer@,
    {
        DrawTarget { surface: Buffer2DSlice::new(width, height, color_buffer) }
    }

    /// Sets every byte to 0.
    pub fn clear(&mut self)
        requires
            old(self).wf(),
        ensures
            final(self).wf(),
            final(self).surface.width == old(self).surface.width,
            final(self).surface.height == old(self).surface.height,
            forall|i: int|
                0 <= i < final(self).surface.bytes().len() ==> final(self).surface.bytes()[i] == 0,
    {
        self.surface.clear();
    }

    /// The pixel index of `(x, y)`, or `None` for a point outside the frame.
    pub fn calculate_index(&self, x: i32, y: i32) -> (r: Option<usize>)
        requires
            self.wf(),
        ensures
            r.is_some() == self.surface.in_bounds(x as int, y as int),
            r.is_some() ==> r.unwrap() as int == index_of(
                x as int,
                y as int,
                self.surface.width as int,
            ),
    {
        if x >= 0 && x < self.surface.width && y >= 0 && y < self.surface.height {
            proof {
                crate::buffer2d::lemma_index_in_grid(
                    x as int,
                    y as int,
                    self.surface.width as int,
                    self.surface.height as int,
                );
                lemma_mul_i32(y as int, self.surface.width as int);
            }
            let len = self.surface.colors.len();
            return Some((y as i64 * self.surface.width as i64 + x as i64) as usize);
        }
        None
    }

    /// Writes `c` at pixel `(x, y)`; a point outside the frame is ignored.
    pub fn set_color_xy(&mut self, x: i32, y: i32, c: &Rgb)
        requires
            old(self).wf(),
        ensures
            final(self).wf(),
            final(self).surface.width == old(self).surface.width,
            final(self).surface.height == old(self).surface.height,
            forall|px: int, py: int, ch: int|
                old(self).surface.in_bounds(px, py) && 0 <= ch < 4
                    ==> #[trigger] final(self).surface.byte_at(px, py, ch) == after_put(
                    old(self).surface.byte_at(px, py, ch),
                    px,
                    py,
                    ch,
                    x as int,
                    y as int,
                    opaque(*c),
                ),
    {
        self.surface.set_color_xy(x, y, c);
    }

    /// Writes `c`, with an opaque alpha, at the 4 bytes that start at `index`.
    pub fn set_color_by_index(&mut self, index: usize, c: &Rgb)
        requires
            index + 4 <= old(self).surface.bytes().len(),
        ensures
            final(self).surface.bytes() == old(self).surface.bytes().update(index as int, c.0).update(
                index + 1,
                c.1,
            ).update(index + 2, c.2).update(index + 3, u8::MAX),
            final(self).surface.width == old(self).surface.width,
            final(self).surface.height == old(self).surface.height,
    {
        self.surface.set_color_by_index(index, c);
    }

    /// Draws the line from `p0` to `p1` in color `c`; the points that fall
    /// outside the frame are skipped.
    pub fn draw_line_2d(&mut self, p0: Point2, p1: Point2, c: &Rgb)
        requires
            old(self).wf(),
        ensures
            final(self).wf(),
            final(self).surface.width == old(self).surface.width,
            final(self).surface.height == old(self).surface.height,
            forall|x: int, y: int, ch: int|
                old(self).surface.in_bounds(x, y) && 0 <= ch < 4
                    ==> #[trigger] final(self).surface.byte_at(x, y, ch) == if on_line(p0, p1, x, y) {
                    channel4(opaque(*c), ch)
                } else {
                    old(self).surface.byte_at(x, y, ch)
                },
    {
        let pts = line_points(p0, p1);
        self.surface.plot_points(&pts, c);
        proof {
            assert forall|x: int, y: int| old(self).surface.in_bounds(x, y) implies among(pts@, x, y)
                == on_line(p0, p1, x, y) by {
                lemma_line_points_among(p0, p1, pts@, x, y);
            }
        }
    }
}

} // verus!
