//! The collision system's scoring, penalty, streak and brick rules.

use breakout::collision::ball_collision_system;
use breakout::entities::{
    Ball, Brick, ColliderKind, Obstacle, Paddle, Scoreboard, TextBonus, Vel,
};
use breakout::geom::Rect;

fn scoreboard(score: u64, remain: u64, streak: u64, keeping: bool) -> Scoreboard {
    Scoreboard { score, remain_bricks: remain, brick_in_row: streak, keeping, just_changed: None }
}

fn paddle() -> Paddle {
    Paddle { x: 0, speed: 500_000, just_bounced: None }
}

fn ball_at(cx: i64, cy: i64, vx: i64, vy: i64) -> Ball {
    Ball { cx, cy, size: 20_000, vel: Vel { x: vx, y: vy }, rotation: 0, just_bounced: None }
}

fn brick_at(cx: i64, cy: i64) -> Brick {
    Brick {
        rect: Rect { cx, cy, w: 150_000, h: 30_000 },
        velocity: None,
        rotation: 0,
        just_bounced: None,
        alive: true,
    }
}

fn bonus() -> TextBonus {
    TextBonus { show: None, row: 0 }
}

fn paddle_collider() -> Obstacle {
    Obstacle {
        kind: ColliderKind::Paddle,
        rect: Rect { cx: 0, cy: -230_000, w: 120_000, h: 30_000 },
    }
}

fn floor_collider() -> Obstacle {
    Obstacle {
        kind: ColliderKind::Solid,
        rect: Rect { cx: 0, cy: -340_000, w: 995_000, h: 35_000 },
    }
}

#[test]
fn paddle_bottom_hit_halves_score() {
    let mut sb = scoreboard(11, 5, 1, false);
    let mut p = paddle();
    // ball under the paddle moving up: it meets the paddle's bottom face
    let mut ball = ball_at(0, -252_000, 0, 150_000);
    let mut bricks: Vec<Brick> = Vec::new();
    let mut bn = bonus();
    let colliders = vec![paddle_collider()];
    ball_collision_system(&mut sb, &mut p, &mut ball, &mut bricks, &mut bn, &colliders);
    assert_eq!(sb.score, 5); // 11 / 2, integer floor
    assert_eq!(ball.vel.y, -150_000); // reflected off the bottom face
    assert_eq!(ball.vel.x, 0);
    assert_eq!(p.just_bounced, Some(1000));
    assert_eq!(ball.just_bounced, Some(1000));
    assert_eq!(sb.just_changed, Some(4000)); // score changed, flash armed
}

#[test]
fn paddle_bottom_hit_on_zero_score_stays_zero() {
    let mut sb = scoreboard(0, 5, 1, false);
    let mut p = paddle();
    let mut ball = ball_at(0, -252_000, 0, 150_000);
    let mut bricks: Vec<Brick> = Vec::new();
    let mut bn = bonus();
    let colliders = vec![paddle_collider()];
    ball_collision_system(&mut sb, &mut p, &mut ball, &mut bricks, &mut bn, &colliders);
    assert_eq!(sb.score, 0); // never negative
    assert_eq!(sb.just_changed, Some(4000)); // halving still counts as a change
}

#[test]
fn top_face_floor_hit_resets_streak_and_costs_a_point() {
    let mut sb = scoreboard(10, 5, 4, true);
    let mut p = paddle();
    // ball above the floor moving down: it meets the floor's top face
    let mut ball = ball_at(0, -318_000, 0, -150_000);
    let mut bricks: Vec<Brick> = Vec::new();
    let mut bn = bonus();
    let colliders = vec![floor_collider()];
    ball_collision_system(&mut sb, &mut p, &mut ball, &mut bricks, &mut bn, &colliders);
    assert_eq!(sb.brick_in_row, 1);
    assert!(!sb.keeping);
    assert_eq!(sb.score, 9); // penalty 1
    assert_eq!(ball.vel.y, 150_000);
    assert_eq!(p.just_bounced, None); // the paddle was not involved
}

#[test]
fn top_face_floor_hit_on_zero_score_stays_zero_and_arms_no_flash() {
    let mut sb = scoreboard(0, 5, 4, true);
    let mut p = paddle();
    let mut ball = ball_at(0, -318_000, 0, -150_000);
    let mut bricks: Vec<Brick> = Vec::new();
    let mut bn = bonus();
    let colliders = vec![floor_collider()];
    ball_collision_system(&mut sb, &mut p, &mut ball, &mut bricks, &mut bn, &colliders);
    assert_eq!(sb.score, 0); // never negative: the point is not taken
    assert_eq!(sb.brick_in_row, 1); // the streak still resets
    assert_eq!(sb.just_changed, None); // nothing changed, no flash
}

#[test]
fn one_brick_hit_scores_the_streak_and_consumes_it() {
    let mut sb = scoreboard(10, 3, 1, false);
    let mut p = paddle();
    let mut ball = ball_at(0, 0, 100_000, 200_000);
    let mut bricks = vec![brick_at(0, 20_000)];
    let mut bn = bonus();
    let colliders: Vec<Obstacle> = Vec::new();
    ball_collision_system(&mut sb, &mut p, &mut ball, &mut bricks, &mut bn, &colliders);
    assert_eq!(sb.score, 11);
    assert_eq!(sb.remain_bricks, 2);
    assert_eq!(sb.brick_in_row, 1); // keeping was down: no extension
    assert!(sb.keeping);
    assert_eq!(bricks[0].just_bounced, Some(1000));
    assert_eq!(bricks[0].velocity, Some(Vel { x: 100_000, y: 200_000 })); // pre-reflection
    assert_eq!(ball.vel.y, -200_000); // reflected off the brick's bottom face
    assert_eq!(bn.show, None); // a streak of 1 shows no bonus
}

#[test]
fn two_bricks_in_one_tick_each_score_and_extend_the_streak() {
    let mut sb = scoreboard(0, 5, 1, false);
    let mut p = paddle();
    let mut ball = ball_at(0, 0, 0, 200_000);
    // one brick above the ball, one below: both overlap it this tick
    let mut bricks = vec![brick_at(0, 20_000), brick_at(0, -20_000)];
    let mut bn = bonus();
    let colliders: Vec<Obstacle> = Vec::new();
    ball_collision_system(&mut sb, &mut p, &mut ball, &mut bricks, &mut bn, &colliders);
    assert_eq!(sb.remain_bricks, 3); // exactly two distinct bricks consumed
    assert_eq!(sb.score, 1 + 2); // first pays 1, second extends the streak
    assert_eq!(sb.brick_in_row, 2);
    assert_eq!(bn.show, Some(2000)); // the "+2" notice appears
    assert_eq!(bn.row, 2);
    assert_eq!(bricks[0].just_bounced, Some(1000));
    assert_eq!(bricks[1].just_bounced, Some(1000));
}

#[test]
fn bouncing_brick_is_passed_over() {
    let mut sb = scoreboard(0, 5, 1, false);
    let mut p = paddle();
    let mut ball = ball_at(0, 0, 0, 200_000);
    let mut bricks = vec![brick_at(0, 20_000)];
    bricks[0].just_bounced = Some(500);
    let mut bn = bonus();
    let colliders: Vec<Obstacle> = Vec::new();
    ball_collision_system(&mut sb, &mut p, &mut ball, &mut bricks, &mut bn, &colliders);
    assert_eq!(sb.score, 0);
    assert_eq!(sb.remain_bricks, 5);
    assert_eq!(ball.vel.y, 200_000); // no reflection either
    assert_eq!(ball.just_bounced, None);
}

#[test]
fn cleared_level_gates_all_scoring() {
    let mut sb = scoreboard(7, 0, 1, false);
    let mut p = paddle();
    let mut ball = ball_at(0, 0, 0, 200_000);
    let mut bricks = vec![brick_at(0, 20_000)];
    let mut bn = bonus();
    let colliders: Vec<Obstacle> = Vec::new();
    ball_collision_system(&mut sb, &mut p, &mut ball, &mut bricks, &mut bn, &colliders);
    assert_eq!(sb.score, 7); // no points once the level is cleared
    assert_eq!(sb.remain_bricks, 0);
    assert_eq!(sb.just_changed, None);
    assert_eq!(bricks[0].just_bounced, Some(1000)); // the brick still bounces out
    assert_eq!(ball.vel.y, -200_000); // and the ball still reflects
}

#[test]
fn last_brick_arms_the_completion_flash() {
    let mut sb = scoreboard(10, 1, 1, false);
    let mut p = paddle();
    let mut ball = ball_at(0, 0, 100_000, 200_000);
    let mut bricks = vec![brick_at(0, 20_000)];
    let mut bn = bonus();
    let colliders: Vec<Obstacle> = Vec::new();
    ball_collision_system(&mut sb, &mut p, &mut ball, &mut bricks, &mut bn, &colliders);
    assert_eq!(sb.remain_bricks, 0);
    assert_eq!(sb.score, 11);
    assert_eq!(sb.just_changed, Some(100_000)); // the long completion timer
}
