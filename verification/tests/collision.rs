use bad_pong::{placement_allowed, Point, Rect, Side, UVec2, SUBPIXELS};

/// `v` pixels in lattice steps (exact for the values used here).
fn at(x: f64, y: f64) -> Point {
    Point { x: (x * SUBPIXELS as f64).floor() as i64, y: (y * SUBPIXELS as f64).floor() as i64 }
}

fn size(x: u32, y: u32) -> UVec2 {
    UVec2 { x, y }
}

#[test]
fn new_keeps_position_and_size() {
    let r = Rect::new(at(3.5, -2.0), size(4, 6));
    assert_eq!(r.position, at(3.5, -2.0));
    assert_eq!(r.size, size(4, 6));
}

#[test]
fn default_is_empty_at_origin() {
    let r = Rect::default();
    assert_eq!(r.position, Point { x: 0, y: 0 });
    assert_eq!(r.size, size(0, 0));
}

#[test]
fn at_side_places_the_game_paddles_and_ball() {
    // left paddle: its left edge midpoint at (8, 40.5)
    let left = Rect::at_side(at(8.0, 40.5), size(2, 9), Side::Left);
    assert_eq!(left.position, at(8.0, 36.0));
    // right paddle: its right edge midpoint at (93, 40.5)
    let right = Rect::at_side(at(93.0, 40.5), size(2, 9), Side::Right);
    assert_eq!(right.position, at(91.0, 36.0));
    // ball: centred at (50.5, 40.5)
    let ball = Rect::at_side(at(50.5, 40.5), size(2, 2), Side::Center);
    assert_eq!(ball.position, at(49.5, 39.5));
    assert_eq!(ball.size, size(2, 2));
}

#[test]
fn set_pos_at_bottom_anchors() {
    let mut r = Rect::new(at(0.0, 0.0), size(5, 7));
    r.set_pos_at(at(10.0, 20.0), Side::Bottom);
    assert_eq!(r.position, at(7.5, 13.0));
    r.set_pos_at(at(10.0, 20.0), Side::BottomLeft);
    assert_eq!(r.position, at(10.0, 13.0));
    assert_eq!(r.size, size(5, 7));
}

#[test]
fn get_pos_at_every_side() {
    let r = Rect::new(at(10.0, 20.0), size(5, 7));
    assert_eq!(r.get_pos_at(Side::Left), at(10.0, 23.0));
    assert_eq!(r.get_pos_at(Side::TopLeft), at(10.0, 20.0));
    assert_eq!(r.get_pos_at(Side::Top), at(12.0, 20.0));
    assert_eq!(r.get_pos_at(Side::TopRight), at(15.0, 20.0));
    assert_eq!(r.get_pos_at(Side::Right), at(15.0, 23.0));
    assert_eq!(r.get_pos_at(Side::BottomRight), at(15.0, 27.0));
    assert_eq!(r.get_pos_at(Side::BottomLeft), at(10.0, 27.0));
    assert_eq!(r.get_pos_at(Side::Bottom), at(12.5, 27.0));
    assert_eq!(r.get_pos_at(Side::Center), at(12.5, 23.5));
}

#[test]
fn anchor_round_trip_law() {
    for side in [Side::Left, Side::Right, Side::Center, Side::Bottom, Side::BottomLeft] {
        let r = Rect::at_side(at(30.25, 17.5), size(3, 4), side);
        assert_eq!(r.get_pos_at(side), at(30.25, 17.5));
    }
    // with an odd height the edge midpoint is read rounded down
    let r = Rect::at_side(at(8.0, 40.5), size(2, 9), Side::Left);
    assert_eq!(r.get_pos_at(Side::Left), at(8.0, 40.0));
}

#[test]
fn set_size_keeps_position() {
    let r = Rect::new(at(1.5, 2.5), size(2, 2)).set_size(size(7, 3));
    assert_eq!(r.position, at(1.5, 2.5));
    assert_eq!(r.size, size(7, 3));
}

#[test]
fn collide_paddle_and_ball_overlapping() {
    let paddle = Rect::new(at(8.0, 36.0), size(2, 9));
    let ball = Rect::new(at(9.7, 40.2), size(2, 2));
    let c = paddle.collide(&ball);
    // centres: paddle (9, 40), ball (10, 41)
    assert_eq!(c.distance.x, -1);
    assert_eq!(c.distance.y, -1);
    assert_eq!((c.normalized.x.num, c.normalized.x.den), (-2, 4));
    assert_eq!((c.normalized.y.num, c.normalized.y.den), (-2, 11));
    assert!(c.overlap);
}

#[test]
fn collide_apart_on_one_axis() {
    let paddle = Rect::new(at(8.0, 36.0), size(2, 9));
    let ball = Rect::new(at(11.0, 40.0), size(2, 2));
    let c = paddle.collide(&ball);
    // centres 9 and 12: 2 * 3 = 6 is not below 4
    assert_eq!(c.distance.x, -3);
    assert_eq!((c.normalized.x.num, c.normalized.x.den), (-6, 4));
    assert!(!c.overlap);
}

#[test]
fn collide_reads_positions_rounded_down() {
    let a = Rect::new(at(-0.5, 0.0), size(3, 3));
    let b = Rect::new(at(0.0, 0.0), size(3, 3));
    // -0.5 falls in pixel -1
    assert_eq!(a.collide(&b).distance.x, -1);
}

#[test]
fn collide_of_empty_rects_never_overlaps() {
    let a = Rect::new(at(5.0, 5.0), size(0, 0));
    let c = a.collide(&a);
    assert_eq!(c.distance.x, 0);
    assert_eq!(c.normalized.x.den, 0);
    assert!(!c.overlap);
}

#[test]
fn collide_antisymmetry_law() {
    let a = Rect::new(at(8.0, 36.0), size(2, 9));
    let b = Rect::new(at(12.3, 33.9), size(4, 2));
    let ab = a.collide(&b);
    let ba = b.collide(&a);
    assert_eq!(ab.overlap, ba.overlap);
    assert_eq!(ab.distance.x, -ba.distance.x);
    assert_eq!(ab.distance.y, -ba.distance.y);
    assert_eq!(ab.normalized.x.num, -ba.normalized.x.num);
    assert_eq!(ab.normalized.y.den, ba.normalized.y.den);
}

#[test]
fn collide_shift_law() {
    let a = Rect::new(at(8.25, 36.0), size(2, 9));
    let b = Rect::new(at(9.5, 40.75), size(2, 2));
    let a2 = Rect::new(at(8.25 + 7.0, 36.0 - 3.0), size(2, 9));
    let b2 = Rect::new(at(9.5 + 7.0, 40.75 - 3.0), size(2, 2));
    assert_eq!(a.collide(&b), a2.collide(&b2));
}

#[test]
fn contains_reads_the_pixel_of_the_corner() {
    let r = Rect::new(at(8.5, 36.25), size(2, 9));
    assert!(r.contains(at(8.0, 36.0)));
    assert!(r.contains(at(9.99, 44.9)));
    assert!(!r.contains(at(10.0, 40.0)));
    assert!(!r.contains(at(7.99, 40.0)));
    assert!(!r.contains(at(9.0, 45.0)));
}

#[test]
fn contains_with_negative_corner() {
    let r = Rect::new(at(-1.5, 0.0), size(1, 1));
    assert!(r.contains(at(-1.5, 0.5)));
    assert!(r.contains(at(-2.0, 0.0)));
    assert!(!r.contains(at(-1.0, 0.0)));
}

#[test]
fn contains_pixel_law() {
    let r = Rect::new(at(3.7, 4.2), size(2, 2));
    // points in the same pixel agree
    for (p, q) in [((3.0, 4.0), (3.9, 4.9)), ((5.0, 5.0), (5.5, 5.99)), ((4.0, 6.0), (4.2, 6.3))] {
        assert_eq!(r.contains(at(p.0, p.1)), r.contains(at(q.0, q.1)));
    }
    assert!(r.contains(at(4.9, 5.9)));
    assert!(!r.contains(at(5.0, 5.0)));
}

#[test]
fn empty_rect_contains_nothing() {
    let r = Rect::new(at(2.0, 2.0), size(0, 5));
    assert!(!r.contains(at(2.0, 3.0)));
}

#[test]
fn placement_allowed_by_side() {
    for side in [Side::Left, Side::Right, Side::Center, Side::Bottom, Side::BottomLeft] {
        assert!(placement_allowed(at(4.0, 4.0), size(2, 2), side));
    }
    for side in [Side::TopLeft, Side::Top, Side::TopRight, Side::BottomRight] {
        assert!(!placement_allowed(at(4.0, 4.0), size(2, 2), side));
    }
    // the corner would leave the lattice
    assert!(!placement_allowed(Point { x: i64::MIN, y: 0 }, size(2, 2), Side::Right));
    assert!(placement_allowed(Point { x: i64::MIN, y: 0 }, size(2, 2), Side::Left));
}
