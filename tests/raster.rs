use softraster::buffer2d::B2D;
use softraster::clip::{clip_polygon_pass, fan_triangulate, ClipEmit};
use softraster::math::Point2;
use softraster::raster::{
    clip_span, is_front_facing, signed_area, triangle_coverage, Renderer, CLEAR_COLOR, FAR_DEPTH,
};

fn p(x: i32, y: i32) -> Point2 {
    Point2 { x, y }
}

#[test]
fn signed_area_matches_hand_computation() {
    // (1,0)-(0,0) x (0,1)-(0,0): 1*1 - 0*0 = 1
    assert_eq!(signed_area(p(0, 0), p(1, 0), p(0, 1)), 1);
    assert_eq!(signed_area(p(0, 0), p(0, 1), p(1, 0)), -1);
    assert_eq!(signed_area(p(2, 3), p(10, 3), p(2, 9)), 8 * 6);
    assert_eq!(signed_area(p(0, 0), p(5, 5), p(10, 10)), 0);
}

#[test]
fn swapped_winding_draws_exactly_once() {
    let (a, b, c) = (p(10, 10), p(50, 12), p(20, 40));
    let first = is_front_facing(a, b, c);
    let second = is_front_facing(a, c, b);
    assert!(first != second);
    let f1 = triangle_coverage(a, b, c, 64, 64);
    let f2 = triangle_coverage(a, c, b, 64, 64);
    assert!((f1.is_empty()) != (f2.is_empty()));
}

#[test]
fn degenerate_triangle_is_culled() {
    assert!(!is_front_facing(p(0, 0), p(4, 4), p(8, 8)));
    assert!(triangle_coverage(p(0, 0), p(4, 4), p(8, 8), 16, 16).is_empty());
}

#[test]
fn coverage_of_a_right_triangle() {
    // front facing: (0,0) -> (4,0) -> (0,4) has positive area
    let frags = triangle_coverage(p(0, 0), p(4, 0), p(0, 4), 16, 16);
    // half-open box [0,4) x [0,4), pixels with x + y <= 4
    let mut expected = Vec::new();
    for y in 0..4 {
        for x in 0..4 {
            if x + y <= 4 {
                expected.push((x, y));
            }
        }
    }
    let got: Vec<(i32, i32)> = frags.iter().map(|f| (f.x, f.y)).collect();
    assert_eq!(got, expected);
    for f in &frags {
        let area = 16;
        assert_eq!(f.w0 + f.w1 + f.w2, area);
        assert!(f.w0 >= 0 && f.w1 >= 0 && f.w2 >= 0);
    }
}

#[test]
fn coverage_is_clipped_to_the_target() {
    let frags = triangle_coverage(p(-20, -20), p(40, -20), p(-20, 40), 8, 8);
    assert!(!frags.is_empty());
    for f in &frags {
        assert!(f.x >= 0 && f.x < 8 && f.y >= 0 && f.y < 8);
    }
    assert_eq!(frags.len(), 64);
}

#[test]
fn quad_head_on_culls_one_triangle_and_is_centered() {
    // a unit square at z = 5 seen through a 90 degree field of view on a
    // 320 x 240 target: x_ndc = x / (z * aspect), y_ndc = y / z
    let aspect = 320.0f32 / 240.0;
    let project = |x: f32, y: f32| -> Point2 {
        let z = 5.0f32;
        let nx = x / (z * aspect);
        let ny = y / z;
        Point2 {
            x: (nx * 160.0 + 160.0).round() as i32,
            y: (-ny * 120.0 + 120.0).round() as i32,
        }
    };
    let tl = project(-0.5, 0.5);
    let tr = project(0.5, 0.5);
    let bl = project(-0.5, -0.5);
    let br = project(0.5, -0.5);
    let tris = [(tl, tr, br), (tl, bl, br)];
    let drawn: Vec<_> = tris.iter().filter(|t| is_front_facing(t.0, t.1, t.2)).collect();
    assert_eq!(drawn.len(), 1);
    let min_x = tl.x.min(bl.x);
    let max_x = tr.x.max(br.x);
    let min_y = tl.y.min(tr.y);
    let max_y = bl.y.max(br.y);
    assert!(((min_x + max_x) - 320).abs() <= 1);
    assert!(((min_y + max_y) - 240).abs() <= 1);
    let t = drawn[0];
    let frags = triangle_coverage(t.0, t.1, t.2, 320, 240);
    assert!(!frags.is_empty());
}

#[test]
fn depth_test_keeps_the_nearer_fragment_in_either_order() {
    let near = (10u32, 111u16);
    let far = (20u32, 222u16);
    for order in [[near, far], [far, near]] {
        let mut r = Renderer::new(B2D::new(4, 4));
        r.begin();
        for (d, c) in order {
            r.write_fragment(1, 2, d, c);
        }
        assert_eq!(r.color_buffer.pixels[2 * 4 + 1], 111);
        assert_eq!(r.z_buffer[2 * 4 + 1], 10);
    }
}

#[test]
fn depth_test_is_strict() {
    let mut r = Renderer::new(B2D::new(2, 2));
    r.begin();
    assert!(r.write_fragment(0, 0, 5, 1));
    assert!(!r.write_fragment(0, 0, 5, 2));
    assert_eq!(r.color_buffer.pixels[0], 1);
    assert!(!r.write_fragment(2, 0, 1, 3));
    assert!(!r.write_fragment(-1, 0, 1, 3));
}

#[test]
fn begin_clears_both_buffers_and_counters() {
    let mut r = Renderer::new(B2D::new(3, 2));
    r.write_fragment(0, 0, 0, 9);
    r.stat_tris = 4;
    r.begin();
    assert!(r.color_buffer.pixels.iter().all(|&c| c == CLEAR_COLOR));
    assert!(r.z_buffer.iter().all(|&d| d == FAR_DEPTH));
    assert_eq!(r.stat_tris, 0);
}

#[test]
fn masked_fragment_writes_nothing() {
    let mut r = Renderer::new(B2D::new(2, 2));
    r.begin();
    assert!(!r.write_masked_fragment(0, 0, 1, softraster::buffer2d::MASK_COLOR));
    assert_eq!(r.z_buffer[0], FAR_DEPTH);
    assert!(r.write_masked_fragment(0, 0, 1, 5));
}

#[test]
fn draw_fragments_counts_a_triangle() {
    let mut r = Renderer::new(B2D::new(8, 8));
    r.begin();
    let frags = triangle_coverage(p(0, 0), p(4, 0), p(0, 4), 8, 8);
    let depths = vec![1u32; frags.len()];
    let colors = vec![7u16; frags.len()];
    r.draw_fragments(&frags, &depths, &colors);
    assert_eq!(r.stat_tris, 1);
    assert_eq!(r.color_buffer.pixels[0], 7);
    assert_eq!(r.color_buffer.pixels[7 * 8 + 7], CLEAR_COLOR);
}

#[test]
fn clip_pass_inside_is_identity() {
    let poly = vec![0usize, 1, 2];
    let inside = vec![true, true, true];
    let out = clip_polygon_pass(&poly, &inside);
    assert_eq!(out, vec![ClipEmit::Keep(0), ClipEmit::Keep(1), ClipEmit::Keep(2)]);
}

#[test]
fn clip_pass_outside_is_empty() {
    let poly = vec![0usize, 1, 2];
    let inside = vec![false, false, false];
    assert!(clip_polygon_pass(&poly, &inside).is_empty());
}

#[test]
fn clip_pass_straddling_cuts_two_edges() {
    let poly = vec![0usize, 1, 2];
    let inside = vec![true, false, true];
    let out = clip_polygon_pass(&poly, &inside);
    assert_eq!(
        out,
        vec![ClipEmit::Keep(0), ClipEmit::Cut(0, 1), ClipEmit::Cut(1, 2), ClipEmit::Keep(2)]
    );
}

#[test]
fn fan_of_a_pentagon() {
    let poly = vec![4usize, 7, 8, 9, 3];
    assert_eq!(fan_triangulate(&poly), vec![4, 7, 8, 4, 8, 9, 4, 9, 3]);
    assert_eq!(fan_triangulate(&vec![1, 2, 3]), vec![1, 2, 3]);
}

#[test]
fn sprite_span_is_clipped_to_the_target() {
    assert_eq!(clip_span(-3, 10, 5), (0, 5));
    assert_eq!(clip_span(2, 2, 5), (2, 4));
    let (s, e) = clip_span(7, 3, 5);
    assert!(s >= e);
}
