use lib::rasterizer::{Circle, Color, Rasterizer, Rectangle, Triangle};

const BG: u32 = 7;

fn painted_indices(buf: &[u32], value: u32) -> Vec<usize> {
    buf.iter().enumerate().filter(|(_, v)| **v == value).map(|(i, _)| i).collect()
}

#[test]
fn color_values_are_rgb() {
    assert_eq!(Color::Black.to_u32(), 0x0000_0000);
    assert_eq!(Color::White.to_u32(), 0x00FF_FFFF);
    assert_eq!(Color::Red.to_u32(), 0x00FF_0000);
    assert_eq!(Color::Green.to_u32(), 0x0000_FF00);
    assert_eq!(Color::Blue.to_u32(), 0x0000_00FF);
    let all = [Color::Black, Color::White, Color::Red, Color::Green, Color::Blue];
    for (i, a) in all.iter().enumerate() {
        assert_eq!(a.to_u32() & 0xFF00_0000, 0);
        for (j, b) in all.iter().enumerate() {
            assert_eq!(i == j, a.to_u32() == b.to_u32());
        }
    }
}

#[test]
fn rectangle_fills_block_at_origin() {
    let mut buf = vec![BG; 16];
    let r = Rectangle { width: 2, height: 2, color: Color::Red };
    assert!(r.can_draw(buf.len(), 0, 0, 4));
    assert_eq!(r.draw(&mut buf, 0, 0, 4), Ok(()));
    assert_eq!(painted_indices(&buf, 0x00FF_0000), vec![0, 1, 4, 5]);
    assert_eq!(painted_indices(&buf, BG).len(), 12);
}

#[test]
fn rectangle_position_is_checked_not_applied() {
    let mut buf = vec![BG; 16];
    let r = Rectangle { width: 2, height: 2, color: Color::Blue };
    assert_eq!(r.draw(&mut buf, 1, 2, 4), Ok(()));
    assert_eq!(painted_indices(&buf, 0x0000_00FF), vec![0, 1, 4, 5]);
}

#[test]
fn rectangle_rejected_out_of_bounds() {
    let mut buf = vec![BG; 16];
    let msg = "PosX or PosY overflows from the buffer or the rectangle is drawn out of bounds from the framebuffer";
    let r = Rectangle { width: 2, height: 2, color: Color::Red };
    assert_eq!(r.draw(&mut buf, 3, 0, 4), Err(msg));
    assert_eq!(r.draw(&mut buf, 5, 0, 4), Err(msg));
    assert_eq!(r.draw(&mut buf, 0, 3, 4), Err(msg));
    assert_eq!(r.draw(&mut buf, 0, 5, 4), Err(msg));
    assert_eq!(buf, vec![BG; 16]);
    let wide = Rectangle { width: 5, height: 1, color: Color::Red };
    assert_eq!(wide.draw(&mut buf, 0, 0, 4), Err(msg));
    assert_eq!(buf, vec![BG; 16]);
}

#[test]
fn rectangle_full_buffer() {
    let mut buf = vec![BG; 12];
    let r = Rectangle { width: 4, height: 3, color: Color::White };
    assert_eq!(r.draw(&mut buf, 0, 0, 4), Ok(()));
    assert_eq!(buf, vec![0x00FF_FFFF; 12]);
}

#[test]
fn rectangle_zero_pitch_cannot_be_drawn() {
    let r = Rectangle { width: 1, height: 1, color: Color::Red };
    assert!(!r.can_draw(16, 0, 0, 0));
}

#[test]
fn rectangle_that_would_write_past_the_buffer_cannot_be_drawn() {
    // A negative position passes the check while the block does not fit.
    let r = Rectangle { width: 6, height: 4, color: Color::Red };
    assert!(!r.can_draw(16, -3, 0, 4));
    assert!(r.can_draw(16, 0, 0, 4));
}

#[test]
fn rectangle_draw_is_idempotent() {
    let mut once = vec![BG; 16];
    let r = Rectangle { width: 3, height: 2, color: Color::Green };
    r.draw(&mut once, 0, 0, 4).unwrap();
    let mut twice = once.clone();
    r.draw(&mut twice, 0, 0, 4).unwrap();
    assert_eq!(once, twice);
}

#[test]
fn circle_radius_one_is_a_plus() {
    let mut buf = vec![BG; 25];
    let c = Circle { radius: 1, color: Color::Green };
    assert_eq!(c.draw(&mut buf, 2, 2, 5), Ok(()));
    assert_eq!(painted_indices(&buf, 0x0000_FF00), vec![7, 11, 12, 13, 17]);
}

#[test]
fn circle_radius_zero_is_its_center() {
    let mut buf = vec![BG; 25];
    let c = Circle { radius: 0, color: Color::White };
    assert_eq!(c.draw(&mut buf, 3, 1, 5), Ok(()));
    assert_eq!(painted_indices(&buf, 0x00FF_FFFF), vec![8]);
}

#[test]
fn circle_radius_two() {
    let mut buf = vec![BG; 20];
    let c = Circle { radius: 2, color: Color::Red };
    // y + r must stay below the row count.
    assert_eq!(c.draw(&mut buf, 2, 2, 5), Err("Circle out of the bounds of the framebuffer"));
    let mut big = vec![BG; 36];
    assert_eq!(c.draw(&mut big, 2, 2, 6), Ok(()));
    // Rows 0..5 of a 6-pixel pitch: |dx|^2 + |dy|^2 <= 4.
    let expected: Vec<usize> = vec![2, 7, 8, 9, 12, 13, 14, 15, 16, 19, 20, 21, 26];
    assert_eq!(painted_indices(&big, 0x00FF_0000), expected);
}

#[test]
fn circle_rejected_out_of_bounds() {
    let mut buf = vec![BG; 25];
    let c = Circle { radius: 1, color: Color::Red };
    let msg = "Circle out of the bounds of the framebuffer";
    assert_eq!(c.draw(&mut buf, 0, 2, 5), Err(msg));
    assert_eq!(c.draw(&mut buf, 4, 2, 5), Err(msg));
    assert_eq!(c.draw(&mut buf, 2, 0, 5), Err(msg));
    assert_eq!(c.draw(&mut buf, 2, 4, 5), Err(msg));
    assert_eq!(buf, vec![BG; 25]);
}

#[test]
fn triangle_right_angle() {
    let mut buf = vec![BG; 16];
    let t = Triangle { p1: [0, 0], p2: [2, 0], p3: [0, 2], color: Color::Blue };
    assert!(t.can_draw(buf.len(), 0, 0, 4));
    assert_eq!(t.draw(&mut buf, 0, 0, 4), Ok(()));
    assert_eq!(painted_indices(&buf, 0x0000_00FF), vec![0, 1, 2, 4, 5, 8]);
}

#[test]
fn triangle_is_placed_at_position() {
    let mut buf = vec![BG; 16];
    let t = Triangle { p1: [0, 0], p2: [1, 0], p3: [0, 1], color: Color::Red };
    assert_eq!(t.draw(&mut buf, 2, 1, 4), Ok(()));
    assert_eq!(painted_indices(&buf, 0x00FF_0000), vec![6, 7, 10]);
}

#[test]
fn triangle_vertex_order_does_not_matter() {
    let orders = [
        ([0, 0], [3, 0], [0, 3]),
        ([0, 0], [0, 3], [3, 0]),
        ([3, 0], [0, 3], [0, 0]),
        ([0, 3], [0, 0], [3, 0]),
    ];
    let mut first: Option<Vec<u32>> = None;
    for (p1, p2, p3) in orders {
        let mut buf = vec![BG; 16];
        let t = Triangle { p1, p2, p3, color: Color::Green };
        assert_eq!(t.draw(&mut buf, 0, 0, 4), Ok(()));
        match &first {
            None => first = Some(buf),
            Some(f) => assert_eq!(f, &buf),
        }
    }
}

#[test]
fn triangle_paints_its_vertices() {
    let mut buf = vec![BG; 64];
    let t = Triangle { p1: [1, 1], p2: [6, 2], p3: [3, 6], color: Color::White };
    assert_eq!(t.draw(&mut buf, 0, 0, 8), Ok(()));
    for (x, y) in [(1usize, 1usize), (6, 2), (3, 6)] {
        assert_eq!(buf[y * 8 + x], 0x00FF_FFFF);
    }
}

#[test]
fn triangle_rejected_out_of_bounds() {
    let mut buf = vec![BG; 16];
    let msg = "Triangle out of the bounds of the framebuffer";
    let t = Triangle { p1: [0, 0], p2: [4, 0], p3: [0, 2], color: Color::Red };
    assert_eq!(t.draw(&mut buf, 0, 0, 4), Err(msg));
    let t = Triangle { p1: [0, 0], p2: [1, 0], p3: [0, 1], color: Color::Red };
    assert_eq!(t.draw(&mut buf, -1, 0, 4), Err(msg));
    assert_eq!(t.draw(&mut buf, 0, 3, 4), Err(msg));
    assert_eq!(buf, vec![BG; 16]);
}

#[test]
fn triangle_degenerate() {
    let mut buf = vec![BG; 16];
    let t = Triangle { p1: [0, 0], p2: [1, 1], p3: [3, 3], color: Color::Red };
    assert_eq!(t.draw(&mut buf, 0, 0, 4), Err("Degenerate triangle (vertices are collinear)"));
    assert_eq!(buf, vec![BG; 16]);
}

#[test]
fn triangle_out_of_frame_wins_over_degenerate() {
    let mut buf = vec![BG; 16];
    let t = Triangle { p1: [0, 0], p2: [1, 1], p3: [9, 9], color: Color::Red };
    assert_eq!(t.draw(&mut buf, 0, 0, 4), Err("Triangle out of the bounds of the framebuffer"));
}

#[test]
fn triangle_overflowing_placement_cannot_be_drawn() {
    let t = Triangle { p1: [i32::MAX, 0], p2: [1, 0], p3: [0, 1], color: Color::Red };
    assert!(!t.can_draw(16, 1, 0, 4));
    assert!(!t.can_draw(16, 0, 0, 0));
    let t = Triangle { p1: [0, 0], p2: [1, 0], p3: [0, 1], color: Color::Red };
    assert!(t.can_draw(16, 0, 0, 4));
    assert!(t.can_draw(16, 100, 0, 4));
}

#[test]
fn scene_triangle_of_the_demo() {
    let pitch = 640usize;
    let mut buf = vec![0u32; pitch * 480];
    let t = Triangle { p1: [100, 250], p2: [0, 450], p3: [200, 450], color: Color::Green };
    assert!(t.can_draw(buf.len(), 0, 0, pitch));
    assert_eq!(t.draw(&mut buf, 0, 0, pitch), Ok(()));
    assert_eq!(buf[250 * pitch + 100], 0x0000_FF00);
    assert_eq!(buf[450 * pitch + 0], 0x0000_FF00);
    assert_eq!(buf[450 * pitch + 200], 0x0000_FF00);
    assert_eq!(buf[350 * pitch + 100], 0x0000_FF00);
    assert_eq!(buf[250 * pitch + 99], 0);
    assert_eq!(buf[451 * pitch + 100], 0);
}

#[test]
fn clear_screen_blacks_out_the_visible_block() {
    let mut buf = vec![BG; 12];
    Rasterizer::clear_screen(&mut buf, 2, 3, 4);
    assert_eq!(buf, vec![0, 0, 0, BG, 0, 0, 0, BG, BG, BG, BG, BG]);
}

#[test]
fn clear_screen_of_nothing_changes_nothing() {
    let mut buf = vec![BG; 4];
    Rasterizer::clear_screen(&mut buf, 0, 100, 4);
    Rasterizer::clear_screen(&mut buf, 100, 0, 4);
    assert_eq!(buf, vec![BG; 4]);
}
