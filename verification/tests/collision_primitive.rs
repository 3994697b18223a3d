//! The axis-aligned collision primitive: which side is reported, and when
//! none is.

use breakout::geom::{collide, Collision, Rect};

fn rect(cx: i64, cy: i64, w: i64, h: i64) -> Rect {
    Rect { cx, cy, w, h }
}

#[test]
fn disjoint_rectangles_report_nothing() {
    let ball = rect(0, 0, 20, 20);
    let far = rect(100, 0, 20, 100);
    assert_eq!(collide(&ball, &far), None);
}

#[test]
fn touching_edges_do_not_collide() {
    // the ball's right edge exactly on the wall's left edge: no overlap
    let ball = rect(0, 0, 20, 20);
    let wall = rect(30, 0, 40, 100);
    assert_eq!(collide(&ball, &wall), None);
}

#[test]
fn ball_from_the_left_reports_left() {
    let ball = rect(-18, 0, 20, 40);
    let wall = rect(5, 0, 30, 40);
    assert_eq!(collide(&ball, &wall), Some(Collision::Left));
}

#[test]
fn ball_from_the_right_reports_right() {
    let ball = rect(0, 0, 20, 20);
    let wall = rect(-15, 0, 20, 100);
    assert_eq!(collide(&ball, &wall), Some(Collision::Right));
}

#[test]
fn ball_from_above_reports_top() {
    let ball = rect(0, 8, 20, 20);
    let slab = rect(0, -10, 100, 20);
    assert_eq!(collide(&ball, &slab), Some(Collision::Top));
}

#[test]
fn ball_from_below_reports_bottom() {
    let ball = rect(0, -8, 20, 20);
    let slab = rect(0, 10, 100, 20);
    assert_eq!(collide(&ball, &slab), Some(Collision::Bottom));
}

#[test]
fn corner_overlap_picks_axis_of_minimum_penetration() {
    // ball over the brick's lower-left corner: 13 deep on x, 4 deep on y
    let ball = rect(0, 0, 20, 20);
    let brick = rect(12, 16, 30, 20);
    assert_eq!(collide(&ball, &brick), Some(Collision::Bottom));
    // same shape rotated: deeper on y than on x picks the x side
    let ball2 = rect(0, 0, 20, 20);
    let brick2 = rect(16, 12, 20, 30);
    assert_eq!(collide(&ball2, &brick2), Some(Collision::Left));
}

#[test]
fn equal_penetration_prefers_the_horizontal_side() {
    let ball = rect(0, 0, 20, 20);
    let brick = rect(14, 14, 20, 20);
    assert_eq!(collide(&ball, &brick), Some(Collision::Left));
}

#[test]
fn ball_spanning_one_axis_reports_the_other() {
    // ball horizontally inside the brick's span, overlapping from below
    let ball = rect(0, -8, 20, 20);
    let brick = rect(0, 10, 150, 20);
    assert_eq!(collide(&ball, &brick), Some(Collision::Bottom));
}
