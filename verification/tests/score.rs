use bad_pong::{Camera, Point, Score, UVec2, SUBPIXELS};

fn at(x: f64, y: f64) -> Point {
    Point { x: (x * SUBPIXELS as f64).floor() as i64, y: (y * SUBPIXELS as f64).floor() as i64 }
}

fn paints(s: &Score, x: f64, y: f64) -> bool {
    let b = at(x, y);
    assert!(s.draw_is_defined(b));
    s.draw(b)
}

#[test]
fn new_score_is_shown_and_untimed() {
    let s = Score::new(3, 2, UVec2 { x: 20, y: 2 });
    assert_eq!(s.score, 3);
    assert_eq!(s.block_size, 2);
    assert_eq!(s.position, UVec2 { x: 20, y: 2 });
    assert!(s.visible);
    assert!(s.scored_time.is_none());
}

#[test]
fn scoring_counts_one_and_records_the_time() {
    let mut s = Score::new(0, 2, UVec2 { x: 20, y: 2 });
    s.score();
    assert_eq!(s.score, 1);
    assert!(s.scored_time.is_some());
    s.score();
    assert_eq!(s.score, 2);
    assert!(s.visible);
}

#[test]
fn draws_the_glyph_of_a_single_digit() {
    // glyph of 5: 111 / 100 / 111 / 001 / 111, cells of 2 pixels
    let s = Score::new(5, 2, UVec2 { x: 20, y: 2 });
    assert!(paints(&s, 20.0, 2.0));
    assert!(paints(&s, 25.0, 3.0));
    assert!(paints(&s, 21.0, 4.0));
    assert!(!paints(&s, 22.0, 4.0));
    assert!(!paints(&s, 24.0, 5.0));
    assert!(paints(&s, 24.0, 8.0));
    assert!(!paints(&s, 20.0, 8.0));
    assert!(paints(&s, 20.0, 11.9));
    // outside the glyph's columns
    assert!(!paints(&s, 26.0, 2.0));
    assert!(!paints(&s, 19.0, 2.0));
}

#[test]
fn draws_each_digit_of_a_two_digit_score() {
    // "10": the 1 at columns 20..26, a gap at 26, the 0 at 27..33
    let s = Score::new(10, 2, UVec2 { x: 20, y: 2 });
    assert!(paints(&s, 22.0, 2.0));
    assert!(!paints(&s, 24.0, 2.0));
    assert!(!paints(&s, 26.0, 2.0));
    assert!(paints(&s, 27.0, 4.0));
    assert!(!paints(&s, 29.0, 4.0));
    assert!(paints(&s, 32.0, 11.0));
    assert!(!paints(&s, 33.0, 2.0));
}

#[test]
fn hidden_score_draws_nothing() {
    let mut s = Score::new(8, 2, UVec2 { x: 20, y: 2 });
    s.visible = false;
    assert!(!paints(&s, 20.0, 2.0));
}

#[test]
fn rows_outside_the_score_draw_nothing() {
    let s = Score::new(8, 2, UVec2 { x: 20, y: 2 });
    assert!(!paints(&s, 20.0, 1.9));
    assert!(!paints(&s, 20.0, 12.5));
    // the bottom row itself is out of the glyph when the brush is beside the digits
    assert!(!paints(&s, 40.0, 12.0));
}

#[test]
fn brush_on_the_row_below_a_glyph_is_undefined() {
    // the band check lets y == 12 through, but no glyph has a sixth row
    let s = Score::new(8, 2, UVec2 { x: 20, y: 2 });
    assert!(!s.draw_is_defined(at(21.0, 12.0)));
    assert!(s.draw_is_defined(at(21.0, 12.1)));
}

#[test]
fn oversized_cells_overflow() {
    let s = Score::new(8, 1 << 30, UVec2 { x: 0, y: 0 });
    assert!(!s.draw_is_defined(at(0.0, 0.0)));
    let mut hidden = s;
    hidden.visible = false;
    assert!(hidden.draw_is_defined(at(0.0, 0.0)));
}

#[test]
fn brush_left_of_the_screen_rounds_toward_zero() {
    // -0.5 is read as column 0, so it paints the first column of a score at x = 0
    let s = Score::new(7, 1, UVec2 { x: 0, y: 0 });
    assert!(paints(&s, -0.5, 0.0));
    assert!(!paints(&s, -1.0, 0.0));
}

#[test]
fn zero_sized_cells_draw_nothing() {
    let s = Score::new(8, 0, UVec2 { x: 4, y: 4 });
    assert!(!paints(&s, 4.0, 4.0));
}

#[test]
fn camera_is_a_unit() {
    assert_eq!(Camera, Camera);
}
