use softraster::buffer2d::B2D;
use softraster::game::{create_virtual_windows, GameState, VW_MAX};
use softraster::input::{Input, InputCode};
use softraster::text::{blit_char, blit_str, blit_str_wrap, Font};
use softraster::virtual_window::{VirtualWindow, VirtualWindowStack, WindowBorder};

/// A font bitmap of 19 x 5 cells of 2 x 2 pixels; every glyph has one lit
/// pixel, at its top left, colored by its character number.
fn font() -> Font {
    let (w, h) = (38, 10);
    let mut bitmap = B2D::new(w, h);
    for u in 0..95 {
        let gx = (u % 19) * 2;
        let gy = (u / 19) * 2;
        bitmap.pixels[(gy * w + gx) as usize] = 100 + u as u16;
    }
    Font::new(bitmap, (2, 2), 0, 0)
}

#[test]
fn font_cuts_one_glyph_per_character() {
    let f = font();
    assert_eq!(f.glyphs.len(), 95);
    assert_eq!(f.glyphs[1].0, vec![(0, 0, 101)]);
    assert_eq!(f.glyph_size, (2, 2));
}

#[test]
fn blit_char_draws_its_glyph_and_skips_space() {
    let f = font();
    let mut dest = B2D::new(4, 4);
    blit_char(&f, &mut dest, '!', (1, 2));
    assert_eq!(dest.pixels[2 * 4 + 1], 101);
    blit_char(&f, &mut dest, ' ', (0, 0));
    blit_char(&f, &mut dest, '\u{7f}', (0, 0));
    assert_eq!(dest.pixels.iter().filter(|&&c| c != 0).count(), 1);
}

#[test]
fn blit_str_stops_at_the_right_edge() {
    let f = font();
    let mut dest = B2D::new(5, 2);
    blit_str(&f, &mut dest, "ABC", (0, 0));
    // 'A' at x 0, 'B' at x 2; 'C' at x 4 would not fit
    assert_eq!(dest.pixels[0], 100 + 33);
    assert_eq!(dest.pixels[2], 100 + 34);
    assert_eq!(dest.pixels[4], 0);
}

#[test]
fn blit_str_wrap_breaks_lines() {
    let f = font();
    let mut dest = B2D::new(6, 6);
    let down = blit_str_wrap(&f, &mut dest, "AB CD", (0, 0), 0, false);
    assert_eq!(down, 2);
    assert_eq!(dest.pixels[0], 133);
    assert_eq!(dest.pixels[2 * 6], 135);
    let mut dest = B2D::new(6, 2);
    let down = blit_str_wrap(&f, &mut dest, "AB CD", (0, 0), 0, true);
    assert_eq!(down, 0);
    assert_eq!(dest.pixels[0], 135);
}

#[test]
fn input_edges() {
    let mut input = Input::new();
    assert!(!input.is_held(InputCode::A));
    input.set_key(InputCode::A, true);
    assert!(input.is_pressed(InputCode::A) && input.is_held(InputCode::A));
    input.reset();
    assert!(!input.is_pressed(InputCode::A) && input.is_held(InputCode::A));
    input.set_key(InputCode::A, false);
    assert!(input.is_released(InputCode::A));
    input.update_mouse((5, 6), (10, 20));
    input.update_mouse((7, 8), (13, 18));
    assert_eq!((input.mouse_raw_delta_x, input.mouse_raw_delta_y), (3, -2));
    assert_eq!((input.mouse_x, input.mouse_y), (7, 8));
}

#[test]
fn game_windows() {
    let w = create_virtual_windows();
    assert_eq!(w.len(), VW_MAX);
    assert_eq!((w[0].x, w[0].y, w[0].z), (160, 60, 0));
    assert_eq!((w[2].x, w[2].y, w[2].z), (200, 40, 2));
    assert!(GameState::Action != GameState::Automap);
}

#[test]
fn window_stack_click_raises_and_drags() {
    let windows = vec![
        VirtualWindow::new(10, 10).with_xyz(0, 0, 0),
        VirtualWindow::new(10, 10).with_xyz(5, 5, 1),
    ];
    let mut stack = VirtualWindowStack::new(windows);
    let mut input = Input::new();
    // the button is up: the initial drag ends
    stack.update(&input);
    assert!(!stack.is_dragging);
    stack.update(&input);
    assert_eq!(stack.sorted_indices, vec![(0, 0), (1, 1)]);
    assert_eq!(stack.get_top_window(), 0);
    // press on a point that only the lower window covers
    input.update_mouse((1, 1), (0, 0));
    input.set_key(InputCode::LMB, true);
    stack.update(&input);
    assert!(stack.is_dragging);
    assert_eq!(stack.windows[0].z, 2);
    assert_eq!(stack.sorted_indices, vec![(1, 1), (0, 2)]);
    // drag by (3, 4)
    input.reset();
    input.update_mouse((4, 5), (0, 0));
    stack.update(&input);
    assert_eq!((stack.windows[0].x, stack.windows[0].y), (3, 4));
}

#[test]
fn border_stays_near_the_window() {
    let mut texture = B2D::new(3, 3);
    for p in texture.pixels.iter_mut() {
        *p = 7;
    }
    let border = WindowBorder::new(texture);
    assert_eq!((border.size, border.padding, border.offset), (1, 1, 6));
    let mut w = VirtualWindow::new(2, 2).with_xyz(10, 10, 0);
    for p in w.buffer.pixels.iter_mut() {
        *p = 3;
    }
    let mut dest = B2D::new(30, 30);
    w.blit_with_border(&mut dest, &border);
    assert_eq!(dest.pixels[10 * 30 + 10], 3);
    assert_eq!(dest.pixels[4 * 30 + 4], 7);
    assert_eq!(dest.pixels[0], 0);
    assert_eq!(dest.pixels[29 * 30 + 29], 0);
}
