use vstd::prelude::*;

use crate::buffer2d::{source_rect_ok, B2D, B2DO};
use crate::input::{Input, InputCode};
use crate::utils::is_inside;

verus! {

/// The largest magnitude of a window's position, size or border measure.
pub const MAX_EXTENT: i32 = 0x8000;

/// The frame drawn around each window, cut from a texture laid out as four
/// corners of `size` pixels around strips `padding` pixels wide.
pub struct WindowBorder {
    pub padding: i32,
    pub size: i32,
    pub offset: i32,
    pub texture: B2DO,
}

impl WindowBorder {
    /// The corners and strips lie inside the texture.
    pub open spec fn wf(&self) -> bool {
        &&& self.texture.wf()
        &&& 0 <= self.padding <= MAX_EXTENT
        &&& 0 <= self.size <= MAX_EXTENT
        &&& 0 <= self.offset <= MAX_EXTENT
        &&& 2 * self.size + self.padding <= self.texture.width
        &&& 2 * self.size + self.padding <= self.texture.height
        &&& self.size + 2 * self.padding <= self.texture.width
        &&& self.size + 2 * self.padding <= self.texture.height
    }

    /// A border cut from `texture`: corners of half the texture's width,
    /// strips one pixel wide, drawn 6 pixels out from the window.
    pub fn new(texture: B2DO) -> (r: Self)
        requires
            texture.wf(),
            2 <= texture.width <= texture.height,
            texture.width <= MAX_EXTENT,
        ensures
            r.wf(),
            r.padding == 1,
            r.size == (texture.width - 1) / 2,
            r.offset == 6,
            r.texture == texture,
    {
        WindowBorder { padding: 1, size: (texture.width - 1) / 2, offset: 6, texture }
    }
}

/// An image placed on the screen at `(x, y)`, stacked by `z`.
pub struct VirtualWindow {
    pub x: i32,
    pub y: i32,
    pub z: i32,
    pub dragable: bool,
    pub minimized: bool,
    pub buffer: B2DO,
}

impl VirtualWindow {
    /// The image is well formed and the window lies within the extents that
    /// drawing takes.
    pub open spec fn wf(&self) -> bool {
        &&& self.buffer.wf()
        &&& -MAX_EXTENT <= self.x <= MAX_EXTENT
        &&& -MAX_EXTENT <= self.y <= MAX_EXTENT
        &&& self.buffer.width <= MAX_EXTENT
        &&& self.buffer.height <= MAX_EXTENT
    }

    /// A window with a blank image of `width` by `height` pixels at the
    /// origin, draggable and shown.
    pub fn new(width: i32, height: i32) -> (r: Self)
        requires
            0 <= width <= MAX_EXTENT,
            0 <= height <= MAX_EXTENT,
        ensures
            r.wf(),
            r.x == 0 && r.y == 0 && r.z == 0,
            r.dragable,
            !r.minimized,
            r.buffer.width == width && r.buffer.height == height,
    {
        assert(width * height <= MAX_EXTENT * MAX_EXTENT) by (nonlinear_arith)
            requires
                0 <= width <= MAX_EXTENT,
                0 <= height <= MAX_EXTENT,
        ;
        VirtualWindow {
            x: 0,
            y: 0,
            z: 0,
            dragable: true,
            minimized: false,
            buffer: B2D::new(width, height),
        }
    }

    /// The window moved to `(x, y)` and stacked at `z`.
    pub fn with_xyz(self, x: i32, y: i32, z: i32) -> (r: Self)
        ensures
            r.x == x && r.y == y && r.z == z,
            r.dragable == self.dragable,
            r.minimized == self.minimized,
            r.buffer == self.buffer,
    {
        let mut w = self;
        w.x = x;
        w.y = y;
        w.z = z;
        w
    }

    /// The window with `dragable` set.
    pub fn with_dragable(self, dragable: bool) -> (r: Self)
        ensures
            r.dragable == dragable,
            r.x == self.x && r.y == self.y && r.z == self.z,
            r.minimized == self.minimized,
            r.buffer == self.buffer,
    {
        let mut w = self;
        w.dragable = dragable;
        w
    }

    /// Whether pixel `(px, py)` lies close enough to the window's rectangle
    /// for its border to reach it.
    pub open spec fn near(&self, border: &WindowBorder, px: int, py: int) -> bool {
        let m = border.offset + border.size + border.padding;
        &&& self.x - m <= px < self.x + self.buffer.width + m
        &&& self.y - m <= py < self.y + self.buffer.height + m
    }

    /// Draws the window's image at its place on `dest`, then its border
    /// around it. Only pixels near the window change.
    pub fn blit_with_border(&mut self, dest: &mut B2D, border: &WindowBorder)
        requires
            old(self).wf(),
            old(dest).wf(),
            border.wf(),
        ensures
            *final(self) == *old(self),
            final(dest).wf(),
            final(dest).width == old(dest).width,
            final(dest).height == old(dest).height,
            forall|px: int, py: int|
                old(dest).in_bounds(px, py) && !old(self).near(border, px, py) ==> #[trigger] final(dest).at(px, py)
                    == old(dest).at(px, py),
    {
        let ghost d0 = *dest;
        let bw = self.buffer.width;
        let bh = self.buffer.height;
        let tw = border.texture.width;
        let s = border.size;
        let p = border.padding;
        let o = border.offset;
        let x = self.x;
        let y = self.y;
        let tex = border.texture.pixels.as_slice();
        let sp = s + p;
        proof {
            assert(bh * bw == bw * bh) by (nonlinear_arith);
            assert((s + p + s) * tw <= border.texture.width * border.texture.height) by (nonlinear_arith)
                requires
                    0 <= s + p + s <= border.texture.height,
                    0 <= tw,
                    tw == border.texture.width,
            ;
            assert((s + p + p) * tw <= border.texture.width * border.texture.height) by (nonlinear_arith)
                requires
                    0 <= s + p + p <= border.texture.height,
                    0 <= tw,
                    tw == border.texture.width,
            ;
            assert(s * tw <= border.texture.width * border.texture.height) by (nonlinear_arith)
                requires
                    0 <= s <= border.texture.height,
                    0 <= tw,
                    tw == border.texture.width,
            ;
        }
        dest.blit_full(self.buffer.pixels.as_slice(), (bw, bh), (x, y));
        // top left
        dest.blit_region_alpha(tex, (0, 0), (s, s), tw, (x - o, y - o));
        // top and bottom strips
        let mut cx = x - o + s;
        while cx < x + bw - s + o
            invariant
                dest.wf(),
                dest.width == d0.width && dest.height == d0.height,
                x - o + s <= cx,
                source_rect_ok(tex@, (sp, 0), (p, s), tw),
                source_rect_ok(tex@, (sp, sp), (p, s), tw),
                forall|px: int, py: int|
                    d0.in_bounds(px, py) && !self.near(border, px, py) ==> #[trigger] dest.at(px, py)
                        == d0.at(px, py),
                -MAX_EXTENT <= x <= MAX_EXTENT && -MAX_EXTENT <= y <= MAX_EXTENT,
                0 <= bw <= MAX_EXTENT && 0 <= bh <= MAX_EXTENT,
                0 <= s <= MAX_EXTENT && 0 <= o <= MAX_EXTENT && 0 <= p <= MAX_EXTENT,
                bw == self.buffer.width && bh == self.buffer.height,
                s == border.size && o == border.offset && p == border.padding && sp == s + p,
                x == self.x && y == self.y,
            decreases x + bw - s + o - cx,
        {
            dest.blit_region_alpha(tex, (sp, 0), (p, s), tw, (cx, y - o));
            dest.blit_region_alpha(tex, (sp, sp), (p, s), tw, (cx, y + bh + o - s));
            cx = cx + 1;
        }
        // corners
        dest.blit_region_alpha(tex, (sp, 0), (s, s), tw, (x + bw - s + o, y - o));
        dest.blit_region_alpha(tex, (0, sp), (s, s), tw, (x - o, y + bh - s + o));
        dest.blit_region_alpha(tex, (sp, sp), (s, s), tw, (x + bw - s + o, y + bh - s + o));
        // left and right strips
        let mut cy = y - o + s;
        while cy < y + bh - s + o
            invariant
                dest.wf(),
                dest.width == d0.width && dest.height == d0.height,
                y - o + s <= cy,
                source_rect_ok(tex@, (0, sp), (s, p), tw),
                source_rect_ok(tex@, (sp, sp), (s, p), tw),
                forall|px: int, py: int|
                    d0.in_bounds(px, py) && !self.near(border, px, py) ==> #[trigger] dest.at(px, py)
                        == d0.at(px, py),
                -MAX_EXTENT <= x <= MAX_EXTENT && -MAX_EXTENT <= y <= MAX_EXTENT,
                0 <= bw <= MAX_EXTENT && 0 <= bh <= MAX_EXTENT,
                0 <= s <= MAX_EXTENT && 0 <= o <= MAX_EXTENT && 0 <= p <= MAX_EXTENT,
                bw == self.buffer.width && bh == self.buffer.height,
                s == border.size && o == border.offset && p == border.padding && sp == s + p,
                x == self.x && y == self.y,
            decreases y + bh - s + o - cy,
        {
            dest.blit_region_alpha(tex, (0, sp), (s, p), tw, (x - o, cy));
            dest.blit_region_alpha(tex, (sp, sp), (s, p), tw, (x + bw + o - s, cy));
            cy = cy + 1;
        }
    }
}

/// Whether `(z, i)` comes no later than `(z2, i2)`: by depth, then by index.
pub open spec fn depth_le(a: (i32, usize), b: (i32, usize)) -> bool {
    a.0 < b.0 || (a.0 == b.0 && a.1 <= b.1)
}

/// Relies on `slice::sort`: it orders tuples lexicographically, ascending,
/// and keeps the elements.
#[verifier::external_body]
fn sort_pairs(v: &mut Vec<(i32, usize)>)
    ensures
        final(v)@.to_multiset() == old(v)@.to_multiset(),
        forall|j: int, k: int|
            0 <= j < k < final(v)@.len() ==> depth_le(#[trigger] final(v)@[j], #[trigger] final(v)@[k]),
{
    v.sort();
}

/// The windows, with the order in which they are stacked.
pub struct VirtualWindowStack {
    pub windows: Vec<VirtualWindow>,
    pub sorted_indices: Vec<(usize, i32)>,
    pub active_window: usize,
    pub is_dragging: bool,
    pub drag_offset: (i32, i32),
}

impl VirtualWindowStack {
    /// Every window is well formed; the order holds one entry per window,
    /// each naming a window; a drag moves a window that exists; and the drag
    /// offset is one that a click within the drawing extents gives.
    pub open spec fn wf(&self) -> bool {
        &&& forall|i: int| 0 <= i < self.windows@.len() ==> (#[trigger] self.windows@[i]).wf()
        &&& self.sorted_indices@.len() == self.windows@.len()
        &&& forall|k: int|
            0 <= k < self.sorted_indices@.len() ==> (#[trigger] self.sorted_indices@[k]).0
                < self.windows@.len()
        &&& self.is_dragging ==> self.active_window < self.windows@.len()
        &&& -2 * MAX_EXTENT <= self.drag_offset.0 <= 2 * MAX_EXTENT
        &&& -2 * MAX_EXTENT <= self.drag_offset.1 <= 2 * MAX_EXTENT
    }

    /// The order is that of the windows' depths, ties broken by index: every
    /// window once, each entry with the depth of its window.
    pub open spec fn is_sorted(&self) -> bool {
        let n = self.windows@.len();
        &&& self.sorted_indices@.len() == n
        &&& forall|k: int|
            0 <= k < n ==> {
                let e = #[trigger] self.sorted_indices@[k];
                e.0 < n && e.1 == self.windows@[e.0 as int].z
            }
        &&& forall|i: int| 0 <= i < n ==> #[trigger] self.listed(i)
        &&& forall|j: int, k: int|
            0 <= j < k < n ==> depth_le(
                ((#[trigger] self.sorted_indices@[j]).1, self.sorted_indices@[j].0),
                ((#[trigger] self.sorted_indices@[k]).1, self.sorted_indices@[k].0),
            )
    }

    /// The same windows, order and drag state as `other`.
    pub open spec fn same(&self, other: &Self) -> bool {
        &&& self.windows@ == other.windows@
        &&& self.sorted_indices@ == other.sorted_indices@
        &&& self.active_window == other.active_window
        &&& self.is_dragging == other.is_dragging
        &&& self.drag_offset == other.drag_offset
    }

    /// Whether window `i` has an entry in the order.
    pub open spec fn listed(&self, i: int) -> bool {
        exists|k: int| 0 <= k < self.sorted_indices@.len() && #[trigger] self.sorted_indices@[k].0 == i
    }

    /// A stack of `virtual_windows`, dragging the first until the mouse
    /// button is found up.
    pub fn new(virtual_windows: Vec<VirtualWindow>) -> (r: Self)
        requires
            virtual_windows@.len() > 0,
            forall|i: int| 0 <= i < virtual_windows@.len() ==> (#[trigger] virtual_windows@[i]).wf(),
        ensures
            r.wf(),
            r.windows == virtual_windows,
            r.active_window == 0,
            r.is_dragging,
            r.drag_offset == (0i32, 0i32),
    {
        let len = virtual_windows.len();
        let mut sorted_indices: Vec<(usize, i32)> = Vec::new();
        let mut i: usize = 0;
        while i < len
            invariant
                i <= len,
                sorted_indices@.len() == i,
                forall|k: int| 0 <= k < i ==> #[trigger] sorted_indices@[k] == (0usize, 0i32),
            decreases len - i,
        {
            sorted_indices.push((0, 0));
            i = i + 1;
        }
        let r = VirtualWindowStack {
            windows: virtual_windows,
            sorted_indices,
            active_window: 0,
            is_dragging: true,
            drag_offset: (0, 0),
        };
        assert forall|k: int| 0 <= k < r.sorted_indices@.len() implies (
        #[trigger] r.sorted_indices@[k]).0 < r.windows@.len() by {
            assert(r.sorted_indices@[k] == (0usize, 0i32));
        }
        r
    }

    /// The window first in the order.
    pub fn get_top_window(&mut self) -> (r: usize)
        requires
            old(self).sorted_indices@.len() > 0,
        ensures
            *final(self) == *old(self),
            r == old(self).sorted_indices@[0].0,
    {
        self.sorted_indices[0].0
    }

    /// Orders the windows by depth, ties by index.
    fn sort(&mut self)
        requires
            old(self).wf(),
        ensures
            final(self).wf(),
            final(self).is_sorted(),
            final(self).windows == old(self).windows,
            final(self).active_window == old(self).active_window,
            final(self).is_dragging == old(self).is_dragging,
            final(self).drag_offset == old(self).drag_offset,
    {
        let n = self.windows.len();
        let mut pairs: Vec<(i32, usize)> = Vec::new();
        let mut i: usize = 0;
        while i < n
            invariant
                n == self.windows@.len(),
                i <= n,
                pairs@.len() == i,
                forall|k: int| 0 <= k < i ==> #[trigger] pairs@[k] == (self.windows@[k].z, k as usize),
            decreases n - i,
        {
            pairs.push((self.windows[i].z, i));
            i = i + 1;
        }
        let ghost unsorted = pairs@;
        sort_pairs(&mut pairs);
        proof {
            broadcast use vstd::seq_lib::group_to_multiset_ensures;

            assert(pairs@.len() == pairs@.to_multiset().len());
            assert(unsorted.len() == unsorted.to_multiset().len());
            assert forall|k: int| 0 <= k < n implies {
                let e = #[trigger] pairs@[k];
                e.1 < n && e.0 == self.windows@[e.1 as int].z
            } by {
                assert(pairs@[k] == pairs@[k]);
                assert(pairs@.contains(pairs@[k]));
                assert(pairs@.to_multiset().count(pairs@[k]) > 0);
                assert(unsorted.contains(pairs@[k]));
            }
            assert forall|i: int| 0 <= i < n implies pairs@.contains(#[trigger] unsorted[i]) by {
                assert(unsorted[i] == (self.windows@[i].z, i as usize));
                assert(unsorted.contains(unsorted[i]));
                assert(pairs@.to_multiset().count(unsorted[i]) > 0);
                assert(pairs@.contains(unsorted[i]));
            }
        }
        let mut out: Vec<(usize, i32)> = Vec::new();
        let mut k: usize = 0;
        while k < n
            invariant
                n == self.windows@.len(),
                pairs@.len() == n,
                k <= n,
                out@.len() == k,
                forall|j: int| 0 <= j < k ==> #[trigger] out@[j] == (pairs@[j].1, pairs@[j].0),
            decreases n - k,
        {
            let e = pairs[k];
            out.push((e.1, e.0));
            k = k + 1;
        }
        self.sorted_indices = out;
        proof {
            assert forall|i: int| 0 <= i < n implies #[trigger] self.listed(i) by {
                assert(pairs@.contains(unsorted[i]));
                let k = choose|k: int| 0 <= k < n && #[trigger] pairs@[k] == unsorted[i];
                assert(self.sorted_indices@[k].0 == i);
            }
            assert forall|j: int, k: int| 0 <= j < k < n implies depth_le(
                ((#[trigger] self.sorted_indices@[j]).1, self.sorted_indices@[j].0),
                ((#[trigger] self.sorted_indices@[k]).1, self.sorted_indices@[k].0),
            ) by {
                assert(depth_le(pairs@[j], pairs@[k]));
            }
        }
    }
}

/// `v` moved into `[-MAX_EXTENT, MAX_EXTENT]`.
pub open spec fn clamp_extent(v: int) -> int {
    if v < -MAX_EXTENT {
        -MAX_EXTENT as int
    } else if v > MAX_EXTENT {
        MAX_EXTENT as int
    } else {
        v
    }
}

fn clamp_extent_exec(v: i64) -> (r: i32)
    ensures
        r == clamp_extent(v as int),
{
    if v < -MAX_EXTENT as i64 {
        -MAX_EXTENT
    } else if v > MAX_EXTENT as i64 {
        MAX_EXTENT
    } else {
        v as i32
    }
}

/// Whether the point lies within `MAX_EXTENT` of the origin on both axes.
pub open spec fn point_ok(pos: (i32, i32)) -> bool {
    -MAX_EXTENT <= pos.0 <= MAX_EXTENT && -MAX_EXTENT <= pos.1 <= MAX_EXTENT
}

impl VirtualWindowStack {
    /// Whether `pos` falls on the window at position `k` of the order.
    pub open spec fn hits(&self, pos: (i32, i32), k: int) -> bool {
        let w = self.windows@[self.sorted_indices@[k].0 as int];
        w.x <= pos.0 <= w.x + w.buffer.width && w.y <= pos.1 <= w.y + w.buffer.height
    }

    /// The greatest depth, and 0, among the windows at positions `k..` of the order.
    pub open spec fn max_z_from(&self, k: int) -> int
        decreases self.sorted_indices@.len() - k,
    {
        if k >= self.sorted_indices@.len() || k < 0 {
            0
        } else {
            let z = self.windows@[self.sorted_indices@[k].0 as int].z as int;
            let rest = self.max_z_from(k + 1);
            if z > rest {
                z
            } else {
                rest
            }
        }
    }

    /// Looks for the window under `pos`, from the end of the order back. The
    /// one found is raised above the windows after it in the order, becomes
    /// the window being dragged, and is returned.
    fn click_test(&mut self, pos: (i32, i32)) -> (r: Option<usize>)
        requires
            old(self).wf(),
            point_ok(pos),
        ensures
            final(self).wf(),
            final(self).sorted_indices == old(self).sorted_indices,
            r.is_none() ==> *final(self) == *old(self),
            r.is_none() == forall|k: int|
                0 <= k < old(self).sorted_indices@.len() ==> !#[trigger] old(self).hits(pos, k),
            r.is_some() ==> exists|k: int|
                0 <= k < old(self).sorted_indices@.len() && #[trigger] old(self).hits(pos, k)
                    && (forall|j: int|
                    k < j < old(self).sorted_indices@.len() ==> !#[trigger] old(self).hits(pos, j))
                    && r.unwrap() == old(self).sorted_indices@[k].0 && final(self).windows@
                    == old(self).windows@.update(
                    r.unwrap() as int,
                    VirtualWindow {
                        z: if old(self).max_z_from(k) < i32::MAX {
                            (old(self).max_z_from(k) + 1) as i32
                        } else {
                            i32::MAX
                        },
                        ..old(self).windows@[r.unwrap() as int]
                    },
                ) && final(self).active_window == r.unwrap() && final(self).is_dragging
                    && final(self).drag_offset == (
                    (old(self).windows@[r.unwrap() as int].x - pos.0) as i32,
                    (old(self).windows@[r.unwrap() as int].y - pos.1) as i32,
                ),
    {
        let n = self.sorted_indices.len();
        let mut max_z: i32 = 0;
        let mut k = n;
        while k > 0
            invariant
                self.wf(),
                *self == *old(self),
                n == self.sorted_indices@.len(),
                k <= n,
                max_z == self.max_z_from(k as int),
                forall|j: int| k <= j < n ==> !#[trigger] self.hits(pos, j),
            decreases k,
        {
            k = k - 1;
            let index = self.sorted_indices[k].0;
            let wz = self.windows[index].z;
            if wz > max_z {
                max_z = wz;
            }
            assert(max_z == self.max_z_from(k as int));
            let wx = self.windows[index].x;
            let wy = self.windows[index].y;
            let ww = self.windows[index].buffer.width;
            let wh = self.windows[index].buffer.height;
            if is_inside(pos, (wx, wy, ww, wh)) {
                let z = if max_z < i32::MAX {
                    max_z + 1
                } else {
                    max_z
                };
                let ghost before = *self;
                assert(before.hits(pos, k as int));
                self.windows[index].z = z;
                self.is_dragging = true;
                self.drag_offset = (wx - pos.0, wy - pos.1);
                self.active_window = index;
                proof {
                    assert(self.windows@ =~= before.windows@.update(
                        index as int,
                        VirtualWindow { z: z, ..before.windows@[index as int] },
                    ));
                    assert forall|i: int| 0 <= i < self.windows@.len() implies (
                    #[trigger] self.windows@[i]).wf() by {
                        assert(before.windows@[i].wf());
                    }
                }
                return Some(index);
            }
        }
        None
    }
}

impl VirtualWindowStack {
    /// One frame of window handling. While a window is dragged it follows
    /// the mouse, kept within the drawing extents, until the left button is
    /// let go. Otherwise a press of the left button picks the window under
    /// the mouse (see `click_test`), and the order is brought up to date.
    pub fn update(&mut self, input: &Input)
        requires
            old(self).wf(),
            point_ok((input.mouse_x, input.mouse_y)),
        ensures
            final(self).wf(),
            old(self).is_dragging && (input.is_released_spec(InputCode::LMB) || !input.down(
                InputCode::LMB,
            )) ==> !final(self).is_dragging && final(self).windows == old(self).windows,
            old(self).is_dragging && !(input.is_released_spec(InputCode::LMB) || !input.down(
                InputCode::LMB,
            )) ==> final(self).is_dragging && final(self).windows@ == old(self).windows@.update(
                old(self).active_window as int,
                VirtualWindow {
                    x: clamp_extent(old(self).drag_offset.0 + input.mouse_x) as i32,
                    y: clamp_extent(old(self).drag_offset.1 + input.mouse_y) as i32,
                    ..old(self).windows@[old(self).active_window as int]
                },
            ),
            !old(self).is_dragging ==> final(self).is_sorted(),
    {
        if self.is_dragging {
            if input.is_released(InputCode::LMB) || !input.is_held(InputCode::LMB) {
                self.is_dragging = false;
            } else {
                let a = self.active_window;
                let ghost before = *self;
                let nx = clamp_extent_exec(self.drag_offset.0 as i64 + input.mouse_x as i64);
                let ny = clamp_extent_exec(self.drag_offset.1 as i64 + input.mouse_y as i64);
                self.windows[a].x = nx;
                self.windows[a].y = ny;
                proof {
                    assert(self.windows@ =~= before.windows@.update(
                        a as int,
                        VirtualWindow { x: nx, y: ny, ..before.windows@[a as int] },
                    ));
                    assert forall|i: int| 0 <= i < self.windows@.len() implies (
                    #[trigger] self.windows@[i]).wf() by {
                        assert(before.windows@[i].wf());
                    }
                }
            }
        } else {
            if input.is_pressed(InputCode::LMB) {
                self.click_test((input.mouse_x, input.mouse_y));
            }
            self.sort();
        }
    }

    /// Draws every shown window, with its border, in the order.
    pub fn blit(&mut self, border: &WindowBorder, buffer: &mut B2D)
        requires
            old(self).wf(),
            old(buffer).wf(),
            border.wf(),
        ensures
            final(self).same(old(self)),
            final(buffer).wf(),
            final(buffer).width == old(buffer).width,
            final(buffer).height == old(buffer).height,
            forall|px: int, py: int|
                old(buffer).in_bounds(px, py) && (forall|i: int|
                    0 <= i < old(self).windows@.len() ==> !(#[trigger] old(self).windows@[i]).near(
                        border,
                        px,
                        py,
                    )) ==> #[trigger] final(buffer).at(px, py) == old(buffer).at(px, py),
    {
        let ghost b0 = *buffer;
        let n = self.sorted_indices.len();
        let mut k: usize = 0;
        while k < n
            invariant
                self.wf(),
                self.same(old(self)),
                n == self.sorted_indices@.len(),
                border.wf(),
                buffer.wf(),
                buffer.width == b0.width && buffer.height == b0.height,
                k <= n,
                forall|px: int, py: int|
                    b0.in_bounds(px, py) && (forall|i: int|
                        0 <= i < self.windows@.len() ==> !(#[trigger] self.windows@[i]).near(
                            border,
                            px,
                            py,
                        )) ==> #[trigger] buffer.at(px, py) == b0.at(px, py),
            decreases n - k,
        {
            let i = self.sorted_indices[k].0;
            if !self.windows[i].minimized {
                let ghost before = *self;
                let ghost bb = *buffer;
                assert(self.windows@[i as int].wf());
                self.windows[i].blit_with_border(buffer, border);
                proof {
                    assert(self.windows@ =~= before.windows@);
                    assert forall|px: int, py: int|
                        b0.in_bounds(px, py) && (forall|j: int|
                            0 <= j < self.windows@.len() ==> !(#[trigger] self.windows@[j]).near(
                                border,
                                px,
                                py,
                            )) implies #[trigger] buffer.at(px, py) == b0.at(px, py) by {
                        assert(!self.windows@[i as int].near(border, px, py));
                        assert(bb.at(px, py) == b0.at(px, py));
                    }
                }
            }
            k = k + 1;
        }
    }
}

} // verus!
