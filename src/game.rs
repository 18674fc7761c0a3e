use vstd::prelude::*;

use crate::virtual_window::VirtualWindow;

verus! {

/// What the game shows: the 3D view or the map.
#[derive(Clone, Copy, Debug, PartialEq, Eq, Structural)]
pub enum GameState {
    Action,
    Automap,
}

/// The window of the 3D view.
pub const VW_PRIMARY: usize = 0;

/// The first test window.
pub const VW_TEST_A: usize = 1;

/// The second test window.
pub const VW_TEST_B: usize = 2;

/// How many windows the game opens.
pub const VW_MAX: usize = 3;

/// The size of the screen that the layout is made for.
pub const REFERENCE_WIDTH: i32 = 640;

pub const REFERENCE_HEIGHT: i32 = 360;

/// The size of the 3D view.
pub const PRIMARY_WIDTH: i32 = 320;

pub const PRIMARY_HEIGHT: i32 = 240;

/// The size of the test windows.
pub const TEST_A_WIDTH: i32 = 200;

pub const TEST_A_HEIGHT: i32 = 60;

/// The game's windows: the 3D view centered on the reference screen at the
/// bottom of the stack, and two test windows above it.
pub fn create_virtual_windows() -> (r: Vec<VirtualWindow>)
    ensures
        r@.len() == VW_MAX,
        forall|i: int| 0 <= i < r@.len() ==> (#[trigger] r@[i]).wf(),
        r@[VW_PRIMARY as int].x == (REFERENCE_WIDTH - PRIMARY_WIDTH) / 2,
        r@[VW_PRIMARY as int].y == (REFERENCE_HEIGHT - PRIMARY_HEIGHT) / 2,
        r@[VW_PRIMARY as int].z == 0,
        r@[VW_PRIMARY as int].buffer.width == PRIMARY_WIDTH,
        r@[VW_PRIMARY as int].buffer.height == PRIMARY_HEIGHT,
        r@[VW_TEST_A as int].x == 64 && r@[VW_TEST_A as int].y == 32 && r@[VW_TEST_A as int].z == 1,
        r@[VW_TEST_A as int].buffer.width == TEST_A_WIDTH,
        r@[VW_TEST_A as int].buffer.height == TEST_A_HEIGHT,
        r@[VW_TEST_B as int].x == 200 && r@[VW_TEST_B as int].y == 40 && r@[VW_TEST_B as int].z == 2,
        r@[VW_TEST_B as int].buffer.width == TEST_A_WIDTH,
        r@[VW_TEST_B as int].buffer.height == TEST_A_HEIGHT,
{
    let mut windows: Vec<VirtualWindow> = Vec::new();
    windows.push(
        VirtualWindow::new(PRIMARY_WIDTH, PRIMARY_HEIGHT).with_xyz(
            (REFERENCE_WIDTH - PRIMARY_WIDTH) / 2,
            (REFERENCE_HEIGHT - PRIMARY_HEIGHT) / 2,
            0,
        ),
    );
    windows.push(VirtualWindow::new(TEST_A_WIDTH, TEST_A_HEIGHT).with_xyz(64, 32, 1));
    windows.push(VirtualWindow::new(TEST_A_WIDTH, TEST_A_HEIGHT).with_xyz(200, 40, 2));
    windows
}

} // verus!
