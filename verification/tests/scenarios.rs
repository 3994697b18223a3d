//! Whole-world scenarios: the setup grid, a leftward ball on the left
//! wall, and a few ticks of the fixed-step scheduler.

use breakout::collision::ball_collision_system;
use breakout::entities::{Ball, Brick, ColliderKind, Obstacle, Paddle, Scoreboard, TextBonus, Vel};
use breakout::geom::Rect;
use breakout::world::World;

#[test]
fn new_world_matches_the_setup() {
    let w = World::new();
    assert_eq!(w.scoreboard.score, 0);
    assert_eq!(w.scoreboard.remain_bricks, 20);
    assert_eq!(w.scoreboard.brick_in_row, 1);
    assert!(!w.scoreboard.keeping);
    assert_eq!(w.bricks.len(), 20);
    assert_eq!(w.colliders.len(), 5);
    assert_eq!(w.ball.vel, Vel { x: 282_843, y: -282_843 });
    assert_eq!(w.ball.cx, 0);
    assert_eq!(w.ball.cy, -50_000);
    assert_eq!(w.paddle.x, 0);
    // the grid's corners
    assert_eq!(w.bricks[0].rect.cx, -340_000);
    assert_eq!(w.bricks[0].rect.cy, 100_000);
    assert_eq!(w.bricks[19].rect.cx, 340_000);
    assert_eq!(w.bricks[19].rect.cy, 250_000);
}

#[test]
fn leftward_ball_on_the_left_wall_flips_only_x() {
    // velocity of the magnitude the setup uses, here moving down-left
    let mut sb = Scoreboard {
        score: 5,
        remain_bricks: 3,
        brick_in_row: 1,
        keeping: true,
        just_changed: None,
    };
    let mut p = Paddle { x: 0, speed: 500_000, just_bounced: None };
    let mut ball = Ball {
        cx: -460_000,
        cy: 0,
        size: 20_000,
        vel: Vel { x: -282_843, y: -282_843 },
        rotation: 0,
        just_bounced: None,
    };
    let mut bricks: Vec<Brick> = Vec::new();
    let mut bn = TextBonus { show: None, row: 0 };
    let colliders = vec![Obstacle {
        kind: ColliderKind::Solid,
        rect: Rect { cx: -480_000, cy: 0, w: 35_000, h: 715_000 },
    }];
    ball_collision_system(&mut sb, &mut p, &mut ball, &mut bricks, &mut bn, &colliders);
    assert_eq!(ball.vel.x, 282_843); // the x sign flips to positive
    assert_eq!(ball.vel.y, -282_843); // y is untouched
    assert_eq!(ball.just_bounced, Some(1000));
    assert!(!sb.keeping); // any wall contact drops the keeping flag
    assert_eq!(sb.score, 5); // a side wall costs nothing
}

#[test]
fn first_ticks_of_a_fresh_world_just_move_the_ball() {
    let mut w = World::new();
    assert!(w.in_range());
    w.tick(false, false);
    // 282843 / 60, truncated
    assert_eq!(w.ball.cx, 4_714);
    assert_eq!(w.ball.cy, -54_714);
    assert_eq!(w.ball.just_bounced, None);
    assert_eq!(w.scoreboard.remain_bricks, 20);
    assert!(w.in_range());
    w.tick(true, false);
    assert_eq!(w.paddle.x, -8_333);
    assert_eq!(w.ball.cx, 9_428);
}

#[test]
fn display_systems_are_quiet_on_a_fresh_world() {
    let mut w = World::new();
    let (score_frame, bonus_frame) = w.frame();
    assert!(!score_frame.visible);
    assert!(score_frame.text.is_none());
    assert!(!bonus_frame.visible);
    assert!(bonus_frame.refresh.is_none());
}

#[test]
fn a_long_run_stays_within_range_and_never_loses_bricks_twice() {
    let mut w = World::new();
    let mut last_remain = w.scoreboard.remain_bricks;
    for i in 0..3_000u32 {
        assert!(w.in_range());
        let left = i % 7 == 0;
        let right = i % 5 == 0 && !left;
        w.tick(left, right);
        w.frame();
        assert!(w.scoreboard.remain_bricks <= last_remain);
        last_remain = w.scoreboard.remain_bricks;
    }
    // the walls always return the ball, so the grid must have been hit
    assert!(w.scoreboard.remain_bricks < 20);
    assert!(w.scoreboard.score > 0);
}
