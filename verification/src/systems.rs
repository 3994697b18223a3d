//! The per-tick movement systems and the per-frame display systems.
//!
//! Each one advances its entity by one step and reports the values the
//! renderer would consume; none of them touches another system's state.

use vstd::prelude::*;

use crate::anim::{decay, decayed};
use crate::entities::{
    scorable, Ball, Brick, Paddle, Scoreboard, TextBonus, Vel, BRICK_SPIN_LIMIT, FULL_TURN,
    PADDLE_RANGE, VEL_LIMIT,
};
use crate::geom::COORD_LIMIT;
use crate::rng::random_u32;

verus! {

/// Simulation steps per second: every velocity is divided by this to get
/// one tick's displacement.
pub const TICK_RATE: i64 = 60;

/// The ball's resting visual size.
pub const BALL_SIZE: i64 = 20_000;

/// The ball's spin per tick (8 radians per second).
pub const BALL_SPIN_STEP: i64 = 133;

/// Horizontal distance of each paddle eye from the paddle center.
pub const EYE_DIST: i64 = 30_000;

/// Resting scale of the paddle eyes (the value 0.25).
pub const EYE_SCALE: u32 = 250;

/// Truncating division, rounding toward zero as the executable `/` does.
pub open spec fn div_towards_zero(a: int, d: int) -> int
    recommends
        0 < d,
{
    if a >= 0 {
        a / d
    } else {
        -((-a) / d)
    }
}

/// One tick's displacement for a velocity component.
pub open spec fn tick_step(v: i64) -> int {
    div_towards_zero(v as int, TICK_RATE as int)
}

/// `v` clamped to `[lo, hi]`.
pub open spec fn clamp_range(v: int, lo: int, hi: int) -> int {
    if v < lo {
        lo
    } else if v > hi {
        hi
    } else {
        v
    }
}

fn div_tz(v: i64, d: i64) -> (r: i64)
    requires
        0 < d,
        -4_000_000_000_000 <= v <= 4_000_000_000_000,
    ensures
        r == div_towards_zero(v as int, d as int),
{
    if v >= 0 {
        ((v as u64) / (d as u64)) as i64
    } else {
        -((((-v) as u64) / (d as u64)) as i64)
    }
}

/// What the paddle hands the renderer: where the eyes sit this tick (they
/// follow the unclamped position) and, while the bounce animation runs,
/// the scale they take.
pub struct PaddleFrame {
    pub left_eye_x: i64,
    pub right_eye_x: i64,
    pub eye_scale: Option<u32>,
}

/// This tick's steering from the pressed keys, scaled to one tick of the
/// paddle's speed.
pub open spec fn paddle_step(p: Paddle, left: bool, right: bool) -> int {
    if left == right {
        0
    } else if right {
        (p.speed as int) / (TICK_RATE as int)
    } else {
        -((p.speed as int) / (TICK_RATE as int))
    }
}

/// The eye scale drawn for a bounce-timer value: swollen while the timer
/// runs high, back to rest just before it clears, untouched when idle.
pub open spec fn eye_scale_of(t: Option<u32>) -> Option<u32> {
    match t {
        None => None,
        Some(v) => if v > 100 {
            Some((EYE_SCALE + v / 2) as u32)
        } else {
            Some(EYE_SCALE)
        },
    }
}

/// The paddle after one movement tick: moved by the pressed keys, clamped
/// to its track, its bounce timer decayed by 0.8 with threshold 0.1.
pub open spec fn moved_paddle(p: Paddle, left: bool, right: bool) -> Paddle {
    Paddle {
        x: clamp_range(
            p.x + paddle_step(p, left, right),
            -PADDLE_RANGE as int,
            PADDLE_RANGE as int,
        ) as i64,
        speed: p.speed,
        just_bounced: decayed(p.just_bounced, 8, 10, 100),
    }
}

/// Move the paddle by the pressed keys, clamp it to its track, and decay
/// its bounce timer by 0.8 with threshold 0.1.
pub fn paddle_movement_system(p: &mut Paddle, left: bool, right: bool) -> (frame: PaddleFrame)
    requires
        old(p).wf(),
    ensures
        final(p).wf(),
        *final(p) == moved_paddle(*old(p), left, right),
        frame.left_eye_x == old(p).x + paddle_step(*old(p), left, right) - EYE_DIST,
        frame.right_eye_x == old(p).x + paddle_step(*old(p), left, right) + EYE_DIST,
        frame.eye_scale == eye_scale_of(old(p).just_bounced),
{
    let unit: i64 = ((p.speed as u64) / (TICK_RATE as u64)) as i64;
    let step: i64 = if left == right {
        0
    } else if right {
        unit
    } else {
        -unit
    };
    let moved: i64 = p.x + step;
    p.x = if moved < -PADDLE_RANGE {
        -PADDLE_RANGE
    } else if moved > PADDLE_RANGE {
        PADDLE_RANGE
    } else {
        moved
    };
    let eye_scale: Option<u32> = match p.just_bounced {
        None => None,
        Some(v) => if v > 100 {
            Some(EYE_SCALE + v / 2)
        } else {
            Some(EYE_SCALE)
        },
    };
    decay(&mut p.just_bounced, 8, 10, 100);
    PaddleFrame { left_eye_x: moved - EYE_DIST, right_eye_x: moved + EYE_DIST, eye_scale }
}

/// The ball after one movement tick: it advances by one tick of its
/// velocity; its spin angle turns and wraps; while the bounce animation
/// runs it advances 0.3 ticks further, swells with the timer, and the
/// timer decays by 0.95 with threshold 0.05.
pub open spec fn moved_ball(b: Ball) -> Ball {
    let plain = Ball {
        cx: (b.cx + tick_step(b.vel.x)) as i64,
        cy: (b.cy + tick_step(b.vel.y)) as i64,
        rotation: ((b.rotation + BALL_SPIN_STEP) % (FULL_TURN as int)) as i64,
        ..b
    };
    match b.just_bounced {
        None => plain,
        Some(t) => Ball {
            cx: (plain.cx + div_towards_zero(3 * tick_step(b.vel.x), 10)) as i64,
            cy: (plain.cy + div_towards_zero(3 * tick_step(b.vel.y), 10)) as i64,
            size: (BALL_SIZE * (1000 + t) / 1000) as i64,
            just_bounced: decayed(b.just_bounced, 95, 100, 50),
            ..plain
        },
    }
}

/// Advance the ball by one tick.
pub fn ball_movement_system(b: &mut Ball)
    requires
        old(b).wf(),
        -COORD_LIMIT <= old(b).cx <= COORD_LIMIT,
        -COORD_LIMIT <= old(b).cy <= COORD_LIMIT,
    ensures
        final(b).wf(),
        *final(b) == moved_ball(*old(b)),
{
    let base_x: i64 = div_tz(b.vel.x, TICK_RATE);
    let base_y: i64 = div_tz(b.vel.y, TICK_RATE);
    b.cx = b.cx + base_x;
    b.cy = b.cy + base_y;
    b.rotation = (b.rotation + BALL_SPIN_STEP) % FULL_TURN;
    if let Some(t) = b.just_bounced {
        b.cx = b.cx + div_tz(3 * base_x, 10);
        b.cy = b.cy + div_tz(3 * base_y, 10);
        b.size = BALL_SIZE * (1000 + t as i64) / 1000;
        decay(&mut b.just_bounced, 95, 100, 50);
    }
}

/// A bouncing brick's drift on one axis: its stored velocity scaled by the
/// decaying timer and the factor 0.6, for one tick.
pub open spec fn brick_drift(t: u32, vel: Option<Vel>, horizontal: bool) -> int {
    match vel {
        None => 0,
        Some(v) => div_towards_zero(
            t * (if horizontal {
                v.x as int
            } else {
                v.y as int
            }),
            100_000,
        ),
    }
}

/// How one brick may change in one animation tick: untouched while it has
/// no running bounce timer; removed when the timer expires (below 0.06
/// after a 0.94 decay); otherwise drifting by its stored velocity,
/// shrinking by 0.99 and taking some random tilt below 0.4 radians.
pub open spec fn brick_stepped(b: Brick, nb: Brick) -> bool {
    if b.alive && b.just_bounced is Some {
        match decayed(b.just_bounced, 94, 100, 60) {
            None => nb == Brick { alive: false, just_bounced: None, ..b },
            Some(t) => {
                &&& nb.alive
                &&& nb.just_bounced == Some(t)
                &&& nb.velocity == b.velocity
                &&& 0 <= nb.rotation < BRICK_SPIN_LIMIT
                &&& nb.rect.cx == b.rect.cx + brick_drift(t, b.velocity, true)
                &&& nb.rect.cy == b.rect.cy + brick_drift(t, b.velocity, false)
                &&& nb.rect.w == b.rect.w * 99 / 100
                &&& nb.rect.h == b.rect.h * 99 / 100
            },
        }
    } else {
        nb == b
    }
}

/// Advance every brick's bounce-out animation by one tick, removing the
/// ones whose timer expired.
pub fn brick_movement_system(bricks: &mut Vec<Brick>)
    requires
        forall|i: int| 0 <= i < old(bricks)@.len() ==> #[trigger] old(bricks)@[i].wf(),
        forall|i: int|
            0 <= i < old(bricks)@.len() ==> -COORD_LIMIT <= #[trigger] old(bricks)@[i].rect.cx
                <= COORD_LIMIT && -COORD_LIMIT <= old(bricks)@[i].rect.cy <= COORD_LIMIT,
    ensures
        final(bricks)@.len() == old(bricks)@.len(),
        forall|i: int| 0 <= i < final(bricks)@.len() ==> #[trigger] final(bricks)@[i].wf(),
        forall|i: int|
            0 <= i < final(bricks)@.len() ==> brick_stepped(
                old(bricks)@[i],
                #[trigger] final(bricks)@[i],
            ),
{
    let n = bricks.len();
    for i in 0..n
        invariant
            n == bricks@.len() == old(bricks)@.len(),
            forall|j: int| 0 <= j < n ==> #[trigger] bricks@[j].wf(),
            forall|j: int|
                0 <= j < n ==> -COORD_LIMIT <= #[trigger] old(bricks)@[j].rect.cx <= COORD_LIMIT
                    && -COORD_LIMIT <= old(bricks)@[j].rect.cy <= COORD_LIMIT,
            forall|j: int| 0 <= j < i ==> brick_stepped(old(bricks)@[j], #[trigger] bricks@[j]),
            forall|j: int| i <= j < n ==> #[trigger] bricks@[j] == old(bricks)@[j],
    {
        let mut b = bricks[i];
        assert(b.wf());
        if b.alive && b.just_bounced.is_some() {
            let expired = decay(&mut b.just_bounced, 94, 100, 60);
            if expired {
                b.alive = false;
            } else {
                if let Some(t) = b.just_bounced {
                    if let Some(v) = b.velocity {
                        assert((t as int) * (v.x as int) <= 4_000_000_000_000 && (t as int) * (
                        v.x as int) >= -4_000_000_000_000 && (t as int) * (v.y as int)
                            <= 4_000_000_000_000 && (t as int) * (v.y as int)
                            >= -4_000_000_000_000) by (nonlinear_arith)
                            requires
                                0 <= t <= 1000,
                                -VEL_LIMIT <= v.x <= VEL_LIMIT,
                                -VEL_LIMIT <= v.y <= VEL_LIMIT,
                        ;
                        b.rect.cx = b.rect.cx + div_tz((t as i64) * v.x, 100_000);
                        b.rect.cy = b.rect.cy + div_tz((t as i64) * v.y, 100_000);
                    }
                    let tilt = random_u32() % (BRICK_SPIN_LIMIT as u32);
                    b.rotation = tilt as i64;
                    assert(b.rect.w * 99 / 100 <= b.rect.w && b.rect.h * 99 / 100 <= b.rect.h)
                        by (nonlinear_arith)
                        requires
                            0 <= b.rect.w,
                            0 <= b.rect.h,
                    ;
                    b.rect.w = ((b.rect.w as u64) * 99 / 100) as i64;
                    b.rect.h = ((b.rect.h as u64) * 99 / 100) as i64;
                }
            }
            bricks.set(i, b);
        }
    }
}

/// What the scoreboard hands the renderer: whether the flash is shown and
/// the score value freshly written into it, if any.
pub struct ScoreFrame {
    pub visible: bool,
    pub text: Option<u64>,
}

/// The scoreboard after one frame of its flash: while the timer runs high
/// it decays by 0.9 with threshold 0.1 — but only while bricks remain, so
/// a finished level keeps its completion flash; at or below the threshold
/// it clears.
pub open spec fn flashed_scoreboard(sb: Scoreboard) -> Scoreboard {
    Scoreboard {
        just_changed: match sb.just_changed {
            None => None,
            Some(t) => if t > 100 {
                if sb.remain_bricks > 0 {
                    decayed(Some(t), 9, 10, 100)
                } else {
                    Some(t)
                }
            } else {
                None
            },
        },
        ..sb
    }
}

/// What the scoreboard shows this frame: the flash while its timer runs,
/// with the score text refreshed while the timer is still high.
pub open spec fn score_frame_of(sb: Scoreboard) -> ScoreFrame {
    ScoreFrame {
        visible: sb.just_changed is Some,
        text: match sb.just_changed {
            None => None,
            Some(t) => if t > 100 {
                Some(sb.score)
            } else {
                None
            },
        },
    }
}

/// Run the scoreboard flash for one frame.
pub fn scoreboard_system(sb: &mut Scoreboard) -> (frame: ScoreFrame)
    requires
        old(sb).wf(),
    ensures
        final(sb).wf(),
        *final(sb) == flashed_scoreboard(*old(sb)),
        frame == score_frame_of(*old(sb)),
{
    match sb.just_changed {
        None => ScoreFrame { visible: false, text: None },
        Some(t) => {
            if t > 100 {
                let shown = sb.score;
                if sb.remain_bricks > 0 {
                    decay(&mut sb.just_changed, 9, 10, 100);
                }
                ScoreFrame { visible: true, text: Some(shown) }
            } else {
                sb.just_changed = None;
                ScoreFrame { visible: true, text: None }
            }
        },
    }
}

/// The text, size and opacity the bonus notice takes while fading.
pub struct BonusRefresh {
    pub row: u64,
    pub font_size: u32,
    pub alpha: u32,
}

/// What the bonus notice hands the renderer for one frame.
pub struct BonusFrame {
    pub visible: bool,
    pub refresh: Option<BonusRefresh>,
}

/// An animation tick never changes whether a brick still counts: it only
/// touches bricks whose bounce timer already runs, and those never count.
pub proof fn lemma_brick_stepped_scorable(b: Brick, nb: Brick)
    requires
        brick_stepped(b, nb),
    ensures
        scorable(nb) == scorable(b),
{
}

/// The bonus notice after one frame: its timer decays by 0.9 with
/// threshold 0.1 while it runs high, and clears at or below it.
pub open spec fn faded_bonus(b: TextBonus) -> TextBonus {
    TextBonus {
        show: match b.show {
            None => None,
            Some(t) => if t > 100 {
                decayed(Some(t), 9, 10, 100)
            } else {
                None
            },
        },
        ..b
    }
}

/// What the bonus notice shows this frame: while the timer is still high
/// the streak text, growing (font 100 × (2 − t)) and fading (opacity t).
pub open spec fn bonus_frame_of(b: TextBonus) -> BonusFrame {
    BonusFrame {
        visible: b.show is Some,
        refresh: match b.show {
            None => None,
            Some(t) => if t > 100 {
                Some(BonusRefresh { row: b.row, font_size: (100 * (2000 - t)) as u32, alpha: t })
            } else {
                None
            },
        },
    }
}

/// Run the "+n" bonus notice for one frame.
pub fn bonus_notifier_system(b: &mut TextBonus) -> (frame: BonusFrame)
    requires
        old(b).wf(),
    ensures
        final(b).wf(),
        *final(b) == faded_bonus(*old(b)),
        frame == bonus_frame_of(*old(b)),
{
    match b.show {
        None => BonusFrame { visible: false, refresh: None },
        Some(t) => {
            if t > 100 {
                let refresh = BonusRefresh { row: b.row, font_size: 100 * (2000 - t), alpha: t };
                decay(&mut b.show, 9, 10, 100);
                BonusFrame { visible: true, refresh: Some(refresh) }
            } else {
                b.show = None;
                BonusFrame { visible: true, refresh: None }
            }
        },
    }
}

} // verus!
