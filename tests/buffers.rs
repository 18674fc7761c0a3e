use softraster::buffer2d::{BlitMethod, B2D, MASK_COLOR};
use softraster::draw_target::DrawTarget;
use softraster::line::line_points;
use softraster::math::{max3, min3, orient2d, Point2};
use softraster::rgba::{Buffer2D, Buffer2DSlice, VirtualWindow};

fn p(x: i32, y: i32) -> Point2 {
    Point2 { x, y }
}

fn numbered(w: i32, h: i32) -> B2D {
    let mut b = B2D::new(w, h);
    for i in 0..(w * h) as usize {
        b.pixels[i] = i as u16 + 1;
    }
    b
}

#[test]
fn min_and_max_of_three() {
    assert_eq!(min3(3, -2, 7), -2);
    assert_eq!(max3(3, -2, 7), 7);
    assert_eq!(min3(5, 5, 5), 5);
}

#[test]
fn orient2d_sign() {
    assert_eq!(orient2d(p(0, 0), p(4, 0), 0, 3), 12);
    assert_eq!(orient2d(p(0, 0), p(4, 0), 0, -3), -12);
    assert_eq!(orient2d(p(0, 0), p(4, 0), 9, 0), 0);
}

#[test]
fn line_walk_shallow_and_steep() {
    let pts: Vec<(i32, i32)> = line_points(p(0, 0), p(4, 2)).iter().map(|q| (q.x, q.y)).collect();
    assert_eq!(pts, vec![(0, 0), (1, 0), (2, 1), (3, 1)]);
    let pts: Vec<(i32, i32)> = line_points(p(0, 0), p(1, 3)).iter().map(|q| (q.x, q.y)).collect();
    assert_eq!(pts, vec![(0, 0), (0, 1), (1, 2)]);
    let pts: Vec<(i32, i32)> = line_points(p(3, 0), p(0, 0)).iter().map(|q| (q.x, q.y)).collect();
    assert_eq!(pts, vec![(0, 0), (1, 0), (2, 0)]);
    assert!(line_points(p(2, 2), p(2, 2)).is_empty());
}

#[test]
fn sample_corners_round_trip() {
    let b = numbered(4, 3);
    let corners = [(0.0f32, 0.0f32), (1.0, 0.0), (0.0, 1.0), (1.0, 1.0)];
    let expected = [1u16, 4, 9, 12];
    for (k, (u, v)) in corners.iter().enumerate() {
        let x = (u * (b.width as f32 - 1.0)).round() as i64;
        let y = (v * (b.height as f32 - 1.0)).round() as i64;
        assert_eq!(b.sample(x, y), expected[k]);
    }
}

#[test]
fn sample_clamps_outside_coordinates() {
    let b = numbered(4, 3);
    assert_eq!(b.sample(-5, -5), 1);
    assert_eq!(b.sample(100, 100), 12);
    assert_eq!(b.sample(100, 0), 4);
}

#[test]
fn set_color_ignores_points_outside() {
    let mut b = B2D::new(2, 2);
    b.set_color(1, 1, 9);
    b.set_color(2, 0, 9);
    b.set_color(-1, 0, 9);
    assert_eq!(b.pixels, vec![0, 0, 0, 9]);
    assert_eq!(b.get_color(1, 1), 9);
}

#[test]
fn resize_keeps_and_zeroes() {
    let mut b = numbered(2, 2);
    b.resize(3, 2);
    assert_eq!(b.pixels, vec![1, 2, 3, 4, 0, 0]);
    assert_eq!(b.width, 3);
}

#[test]
fn blit_region_copy_clips_at_the_edges() {
    let src = numbered(3, 3);
    let mut dst = B2D::new(4, 4);
    dst.blit_region_copy(&src.pixels, (1, 1), (2, 2), 3, (-1, 3));
    // only source pixel (2, 1) -> dest (0, 3) lands inside
    let mut expected = vec![0u16; 16];
    expected[12] = 6;
    assert_eq!(dst.pixels, expected);
}

#[test]
fn blit_region_alpha_skips_the_mask_color() {
    let src = vec![MASK_COLOR, 5, 6, MASK_COLOR];
    let mut dst = numbered(2, 2);
    dst.blit_region_alpha(&src, (0, 0), (2, 2), 2, (0, 0));
    assert_eq!(dst.pixels, vec![1, 5, 6, 4]);
    let mut dst = numbered(2, 2);
    dst.blit_region(&src, (0, 0), (2, 2), 2, (0, 0), BlitMethod::Copy);
    assert_eq!(dst.pixels, vec![MASK_COLOR, 5, 6, MASK_COLOR]);
}

#[test]
fn blit_full_and_buffer_full() {
    let src = numbered(2, 1);
    let mut dst = B2D::new(3, 2);
    dst.blit_buffer_full(&src, (1, 1));
    assert_eq!(dst.pixels, vec![0, 0, 0, 0, 1, 2]);
    let mut dst = numbered(3, 2);
    let masked = B2D { width: 2, height: 1, pixels: vec![MASK_COLOR, 0] };
    dst.blit_buffer_full_alpha(&masked, (0, 0));
    assert_eq!(dst.pixels, vec![1, 0, 3, 4, 5, 6]);
}

#[test]
fn blit_fill_masks_with_and() {
    let mut b = B2D { width: 3, height: 2, pixels: vec![0xFF; 6] };
    b.blit_fill((1, 0), (5, 1), 0x0F);
    assert_eq!(b.pixels, vec![0xFF, 0x0F, 0x0F, 0xFF, 0xFF, 0xFF]);
    let mut b = B2D { width: 2, height: 2, pixels: vec![0xFF; 4] };
    b.blit_fill((-3, 5), (1, 1), 0);
    assert_eq!(b.pixels, vec![0xFF; 4]);
}

#[test]
fn draw_line_2d_clamps_endpoints() {
    let mut b = B2D::new(4, 4);
    b.draw_line_2d(p(-10, 0), p(10, 0), 3);
    // clamped to (0,0)..(3,0); the last endpoint is not drawn
    assert_eq!(&b.pixels[0..4], &[3, 3, 3, 0]);
}

#[test]
fn rgba_surface_writes_opaque_pixels() {
    let mut s = Buffer2DSlice::new(2, 2, vec![0; 16]);
    s.set_color_xy(1, 0, &(10, 20, 30));
    s.set_color_xy(5, 5, &(1, 1, 1));
    let bytes = s.into_colors();
    assert_eq!(&bytes[4..8], &[10, 20, 30, 255]);
    assert!(bytes[0..4].iter().all(|&b| b == 0));
}

#[test]
fn rgba_blit_buffer_copies_all_channels() {
    let img = Buffer2D::new(1, 2, vec![1, 2, 3, 4, 5, 6, 7, 8]);
    assert_eq!(img.get_color(0, 1), (5, 6, 7));
    let mut s = Buffer2DSlice::new(2, 2, vec![0; 16]);
    s.blit_buffer(&img, 1, 0);
    let bytes = s.into_colors();
    assert_eq!(&bytes[4..8], &[1, 2, 3, 4]);
    assert_eq!(&bytes[12..16], &[5, 6, 7, 8]);
}

#[test]
fn virtual_window_blits_at_its_place() {
    let mut w = VirtualWindow::new(1, 1, 1, 1);
    w.buffer.colors = vec![9, 9, 9, 9];
    let mut s = Buffer2DSlice::new(2, 2, vec![0; 16]);
    s.blit_virtual_window(&w);
    s.draw_line_2d(p(0, 0), p(1, 0), &(7, 7, 7));
    let bytes = s.into_colors();
    assert_eq!(&bytes[12..16], &[9, 9, 9, 9]);
    assert_eq!(&bytes[0..4], &[7, 7, 7, 255]);
    let slice = VirtualWindow::new(0, 0, 2, 1).get_buffer_slice();
    assert_eq!(slice.width, 2);
}

#[test]
fn draw_target_checks_bounds() {
    let mut t = DrawTarget::new(vec![1; 8], 2, 1);
    assert_eq!(t.calculate_index(1, 0), Some(1));
    assert_eq!(t.calculate_index(2, 0), None);
    assert_eq!(t.calculate_index(0, -1), None);
    t.clear();
    t.draw_line_2d(p(-1, 0), p(2, 0), &(4, 5, 6));
    t.set_color_by_index(0, &(1, 2, 3));
    let bytes = t.surface.into_colors();
    assert_eq!(bytes, vec![1, 2, 3, 255, 4, 5, 6, 255]);
}
