//! A software rasterizer's integer core: pixel buffers and blits, line
//! walks, triangle coverage with edge functions, the depth-tested frame
//! state, the plan of polygon clipping, and the text, window, input and
//! asset decoding around them.

use vstd::prelude::*;

pub mod bmp;
pub mod buffer2d;
pub mod clip;
pub mod console;
pub mod draw_target;
pub mod game;
pub mod input;
pub mod line;
pub mod math;
pub mod raster;
pub mod rgba;
pub mod text;
pub mod utils;
pub mod virtual_window;
pub mod wad;
