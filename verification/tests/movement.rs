//! The movement and display systems: paddle clamping and eyes, ball
//! advance and bounce swell, brick bounce-out, scoreboard flash and bonus
//! notice.

use breakout::entities::{Ball, Brick, Paddle, Scoreboard, TextBonus, Vel};
use breakout::geom::Rect;
use breakout::systems::{
    ball_movement_system, bonus_notifier_system, brick_movement_system, paddle_movement_system,
    scoreboard_system,
};

#[test]
fn paddle_moves_one_tick_of_its_speed() {
    let mut p = Paddle { x: 0, speed: 500_000, just_bounced: None };
    let frame = paddle_movement_system(&mut p, false, true);
    assert_eq!(p.x, 8_333); // 500 units per second over a 1/60 tick
    assert_eq!(frame.left_eye_x, 8_333 - 30_000);
    assert_eq!(frame.right_eye_x, 8_333 + 30_000);
    assert_eq!(frame.eye_scale, None);
    let frame = paddle_movement_system(&mut p, true, false);
    assert_eq!(p.x, 0);
    assert_eq!(frame.left_eye_x, -30_000);
}

#[test]
fn both_keys_cancel_out() {
    let mut p = Paddle { x: 1_000, speed: 500_000, just_bounced: None };
    paddle_movement_system(&mut p, true, true);
    assert_eq!(p.x, 1_000);
}

#[test]
fn paddle_is_clamped_to_its_track_but_the_eyes_overshoot() {
    let mut p = Paddle { x: 399_000, speed: 500_000, just_bounced: None };
    let frame = paddle_movement_system(&mut p, false, true);
    assert_eq!(p.x, 400_000);
    assert_eq!(frame.right_eye_x, 437_333); // the eyes follow the unclamped spot
}

#[test]
fn paddle_bounce_timer_decays_and_swells_the_eyes() {
    let mut p = Paddle { x: 0, speed: 500_000, just_bounced: Some(1000) };
    let frame = paddle_movement_system(&mut p, false, false);
    assert_eq!(frame.eye_scale, Some(750)); // 0.25 + 0.5 × 1.0
    assert_eq!(p.just_bounced, Some(800)); // decayed by 0.8
    let mut p = Paddle { x: 0, speed: 500_000, just_bounced: Some(100) };
    let frame = paddle_movement_system(&mut p, false, false);
    assert_eq!(frame.eye_scale, Some(250)); // back to rest
    assert_eq!(p.just_bounced, None); // at the threshold: cleared
}

#[test]
fn ball_advances_by_one_tick_of_its_velocity() {
    let mut b = Ball {
        cx: 0,
        cy: 0,
        size: 20_000,
        vel: Vel { x: 60_000, y: -120_000 },
        rotation: 0,
        just_bounced: None,
    };
    ball_movement_system(&mut b);
    assert_eq!(b.cx, 1_000);
    assert_eq!(b.cy, -2_000);
    assert_eq!(b.size, 20_000);
    assert_eq!(b.rotation, 133); // 8 radians per second over one tick
}

#[test]
fn ball_tick_step_truncates_toward_zero() {
    let mut b = Ball {
        cx: 0,
        cy: 0,
        size: 20_000,
        vel: Vel { x: -100, y: -100 },
        rotation: 0,
        just_bounced: None,
    };
    ball_movement_system(&mut b);
    assert_eq!(b.cx, -1); // -100/60 rounds toward zero
    assert_eq!(b.cy, -1);
}

#[test]
fn bouncing_ball_overshoots_and_swells() {
    let mut b = Ball {
        cx: 0,
        cy: 0,
        size: 20_000,
        vel: Vel { x: 60_000, y: 0 },
        rotation: 0,
        just_bounced: Some(1000),
    };
    ball_movement_system(&mut b);
    assert_eq!(b.cx, 1_300); // one tick plus 0.3 of a tick
    assert_eq!(b.size, 40_000); // 20 × (1 + 1.0)
    assert_eq!(b.just_bounced, Some(950)); // decayed by 0.95
}

#[test]
fn ball_rotation_wraps_within_a_turn() {
    let mut b = Ball {
        cx: 0,
        cy: 0,
        size: 20_000,
        vel: Vel { x: 0, y: 0 },
        rotation: 6_250,
        just_bounced: None,
    };
    ball_movement_system(&mut b);
    assert_eq!(b.rotation, 100); // 6250 + 133 - 6283
}

fn bouncing_brick(t: u32) -> Brick {
    Brick {
        rect: Rect { cx: 0, cy: 0, w: 150_000, h: 30_000 },
        velocity: Some(Vel { x: 100_000, y: -50_000 }),
        rotation: 0,
        just_bounced: Some(t),
        alive: true,
    }
}

#[test]
fn bouncing_brick_drifts_shrinks_and_tilts() {
    let mut bricks = vec![bouncing_brick(1000)];
    brick_movement_system(&mut bricks);
    let b = &bricks[0];
    assert!(b.alive);
    assert_eq!(b.just_bounced, Some(940)); // decayed by 0.94
    assert_eq!(b.rect.cx, 940); // 0.94 × 0.6 × (1/60) × 100000
    assert_eq!(b.rect.cy, -470);
    assert_eq!(b.rect.w, 148_500); // shrunk by 0.99
    assert_eq!(b.rect.h, 29_700);
    assert!(b.rotation >= 0 && b.rotation < 400);
}

#[test]
fn brick_timer_at_threshold_removes_the_brick() {
    let mut bricks = vec![bouncing_brick(60)];
    brick_movement_system(&mut bricks);
    assert!(!bricks[0].alive);
}

#[test]
fn idle_brick_is_untouched() {
    let mut bricks = vec![bouncing_brick(1000)];
    bricks[0].just_bounced = None;
    brick_movement_system(&mut bricks);
    assert!(bricks[0].alive);
    assert_eq!(bricks[0].rect.cx, 0);
    assert_eq!(bricks[0].rotation, 0);
}

#[test]
fn score_flash_shows_and_decays() {
    let mut sb = Scoreboard {
        score: 7,
        remain_bricks: 2,
        brick_in_row: 1,
        keeping: false,
        just_changed: Some(4000),
    };
    let frame = scoreboard_system(&mut sb);
    assert!(frame.visible);
    assert_eq!(frame.text, Some(7));
    assert_eq!(sb.just_changed, Some(3600)); // decayed by 0.9
}

#[test]
fn completion_flash_never_decays() {
    let mut sb = Scoreboard {
        score: 42,
        remain_bricks: 0,
        brick_in_row: 1,
        keeping: false,
        just_changed: Some(100_000),
    };
    let frame = scoreboard_system(&mut sb);
    assert!(frame.visible);
    assert_eq!(frame.text, Some(42));
    assert_eq!(sb.just_changed, Some(100_000)); // frozen once the level is done
}

#[test]
fn score_flash_clears_at_the_threshold() {
    let mut sb = Scoreboard {
        score: 7,
        remain_bricks: 2,
        brick_in_row: 1,
        keeping: false,
        just_changed: Some(100),
    };
    let frame = scoreboard_system(&mut sb);
    assert!(frame.visible); // shown one last frame, without a refresh
    assert_eq!(frame.text, None);
    assert_eq!(sb.just_changed, None);
    let frame = scoreboard_system(&mut sb);
    assert!(!frame.visible);
}

#[test]
fn bonus_notice_grows_and_fades() {
    let mut bn = TextBonus { show: Some(2000), row: 3 };
    let frame = bonus_notifier_system(&mut bn);
    assert!(frame.visible);
    let r = frame.refresh.expect("the notice refreshes while high");
    assert_eq!(r.row, 3);
    assert_eq!(r.font_size, 0); // 100 × (2.0 − 2.0)
    assert_eq!(r.alpha, 2000);
    assert_eq!(bn.show, Some(1800));
    let frame = bonus_notifier_system(&mut bn);
    let r = frame.refresh.expect("still fading");
    assert_eq!(r.font_size, 20_000); // 100 × (2.0 − 1.8)
    assert_eq!(r.alpha, 1800);
}

#[test]
fn idle_bonus_notice_is_hidden() {
    let mut bn = TextBonus { show: None, row: 0 };
    let frame = bonus_notifier_system(&mut bn);
    assert!(!frame.visible);
    assert!(frame.refresh.is_none());
}
