//! The library's laws: what reflection, penalties, the streak reset and
//! the remaining-brick count are proved to do across a whole tick.

use vstd::prelude::*;

use crate::collision::{
    collision_outcome, collision_start, drives_into, hit_count_from, lemma_brick_scan_remain,
    lemma_hit_count_le_scorable, reflected, scoreboard_after, wall_phase, wall_scan_from, WallScan,
};
use crate::entities::{scorable_count, Ball, Brick, Obstacle, Scoreboard, TextBonus, Vel};
use crate::geom::{collision_side, Collision, Rect};

verus! {

/// Law: a collision flips exactly one velocity axis — the one driving
/// into the reported side — and never both; a hit the ball is already
/// moving away from (the corner case) flips nothing.
pub proof fn lemma_reflection_flips_one_axis(v: Vel, side: Collision)
    requires
        v.wf(),
    ensures
        drives_into(v, side) && (side is Left || side is Right) ==> reflected(v, side).x == -v.x
            && reflected(v, side).y == v.y,
        drives_into(v, side) && (side is Top || side is Bottom) ==> reflected(v, side).y == -v.y
            && reflected(v, side).x == v.x,
        !drives_into(v, side) ==> reflected(v, side) == v,
        reflected(v, side).x == v.x || reflected(v, side).y == v.y,
        drives_into(v, side) ==> reflected(v, side) != v,
{
}

/// Law: the score never goes negative, before or after the flash timer is
/// armed.
pub proof fn lemma_score_never_negative(
    sb: Scoreboard,
    ball: Ball,
    bonus: TextBonus,
    colliders: Seq<Obstacle>,
    bricks: Seq<Brick>,
)
    ensures
        collision_outcome(sb, ball, bonus, colliders, bricks).score >= 0,
        scoreboard_after(collision_outcome(sb, ball, bonus, colliders, bricks)).score >= 0,
{
}

/// Once the penalty reaches 2 it stays there for the rest of the scan.
proof fn lemma_wall_scan_penalty_two_sticks(ball: Rect, obs: Seq<Obstacle>, i: int, st: WallScan)
    requires
        st.penalty == 2,
    ensures
        wall_scan_from(ball, obs, i, st).penalty == 2,
    decreases obs.len() - i,
{
    if i < 0 || i >= obs.len() {
    } else {
        match collision_side(ball, obs[i].rect) {
            None => lemma_wall_scan_penalty_two_sticks(ball, obs, i + 1, st),
            Some(side) => {
                let st1 = crate::collision::wall_hit_applied(st, obs[i].kind, side);
                if !(obs[i].kind is Solid) {
                    lemma_wall_scan_penalty_two_sticks(ball, obs, i + 1, st1);
                }
            },
        }
    }
}

/// A scan that ends with penalty 2 met the paddle's bottom face somewhere.
proof fn lemma_wall_scan_penalty_two_src(ball: Rect, obs: Seq<Obstacle>, i: int, st: WallScan)
    requires
        st.penalty != 2,
        wall_scan_from(ball, obs, i, st).penalty == 2,
    ensures
        exists|j: int|
            i <= j < obs.len() && (#[trigger] obs[j].kind) is Paddle && collision_side(
                ball,
                obs[j].rect,
            ) == Some(Collision::Bottom),
    decreases obs.len() - i,
{
    if i < 0 || i >= obs.len() {
    } else {
        match collision_side(ball, obs[i].rect) {
            None => lemma_wall_scan_penalty_two_src(ball, obs, i + 1, st),
            Some(side) => {
                let st1 = crate::collision::wall_hit_applied(st, obs[i].kind, side);
                if obs[i].kind is Paddle {
                    if side is Bottom {
                        assert(obs[i as int].kind is Paddle && collision_side(ball, obs[i].rect)
                            == Some(Collision::Bottom));
                    } else {
                        lemma_wall_scan_penalty_two_src(ball, obs, i + 1, st1);
                    }
                }
            },
        }
    }
}

/// Law: while bricks remain, a tick whose wall phase reports penalty 2 —
/// which arises only from a hit on the paddle's bottom face — enters the
/// brick phase with the score halved, rounded down.
pub proof fn lemma_paddle_bottom_halves_score(
    sb: Scoreboard,
    ball: Ball,
    bonus: TextBonus,
    colliders: Seq<Obstacle>,
)
    requires
        sb.remain_bricks > 0,
        wall_phase(sb, ball, colliders).penalty == 2,
    ensures
        collision_start(sb, ball, bonus, colliders).score == sb.score / 2,
        exists|j: int|
            0 <= j < colliders.len() && (#[trigger] colliders[j].kind) is Paddle && collision_side(
                ball.spec_rect(),
                colliders[j].rect,
            ) == Some(Collision::Bottom),
{
    let init = WallScan {
        vel: ball.vel,
        keeping: sb.keeping,
        brick_in_row: sb.brick_in_row,
        penalty: 0,
        collided: false,
        hit_paddle: false,
    };
    lemma_wall_scan_penalty_two_src(ball.spec_rect(), colliders, 0, init);
}

/// Law: on a tick that hits the paddle's bottom face and no brick, the
/// whole tick's score is the old score halved, rounded down (while bricks
/// remain).
pub proof fn lemma_paddle_bottom_halves_score_for_the_tick(
    sb: Scoreboard,
    ball: Ball,
    bonus: TextBonus,
    colliders: Seq<Obstacle>,
    bricks: Seq<Brick>,
)
    requires
        sb.remain_bricks > 0,
        wall_phase(sb, ball, colliders).penalty == 2,
        hit_count_from(ball.spec_rect(), bricks, 0) == 0,
    ensures
        collision_outcome(sb, ball, bonus, colliders, bricks).score == sb.score / 2,
{
    lemma_paddle_bottom_halves_score(sb, ball, bonus, colliders);
    crate::collision::lemma_brick_scan_no_hits(
        ball.spec_rect(),
        bricks,
        0,
        collision_start(sb, ball, bonus, colliders),
    );
}

/// A scan begun without a penalty that ends with penalty 1 took the
/// streak reset as its last event, leaving the streak at 1 and the
/// keeping flag down.
proof fn lemma_wall_scan_penalty_one_reset(ball: Rect, obs: Seq<Obstacle>, i: int, st: WallScan)
    requires
        st.penalty == 0,
        wall_scan_from(ball, obs, i, st).penalty == 1,
    ensures
        wall_scan_from(ball, obs, i, st).brick_in_row == 1,
        !wall_scan_from(ball, obs, i, st).keeping,
    decreases obs.len() - i,
{
    if i < 0 || i >= obs.len() {
    } else {
        match collision_side(ball, obs[i].rect) {
            None => lemma_wall_scan_penalty_one_reset(ball, obs, i + 1, st),
            Some(side) => {
                let st1 = crate::collision::wall_hit_applied(st, obs[i].kind, side);
                if obs[i].kind is Paddle {
                    if st1.penalty == 2 {
                        lemma_wall_scan_penalty_two_sticks(ball, obs, i + 1, st1);
                    } else {
                        lemma_wall_scan_penalty_one_reset(ball, obs, i + 1, st1);
                    }
                }
            },
        }
    }
}

/// Law: a top-face solid hit met while reflecting — the only source of
/// penalty 1 — resets the brick-in-row streak to 1 and drops the keeping
/// flag for the rest of the tick's wall phase.
pub proof fn lemma_top_wall_resets_streak(sb: Scoreboard, ball: Ball, colliders: Seq<Obstacle>)
    requires
        wall_phase(sb, ball, colliders).penalty == 1,
    ensures
        wall_phase(sb, ball, colliders).brick_in_row == 1,
        !wall_phase(sb, ball, colliders).keeping,
{
    let init = WallScan {
        vel: ball.vel,
        keeping: sb.keeping,
        brick_in_row: sb.brick_in_row,
        penalty: 0,
        collided: false,
        hit_paddle: false,
    };
    lemma_wall_scan_penalty_one_reset(ball.spec_rect(), colliders, 0, init);
}

/// Law: in a consistent world — the remaining count equals the bricks
/// still standing unbounced — one tick decreases the count by exactly the
/// number of distinct such bricks the ball hits, and never below zero.
pub proof fn lemma_remaining_decreases_by_hits(
    sb: Scoreboard,
    ball: Ball,
    bonus: TextBonus,
    colliders: Seq<Obstacle>,
    bricks: Seq<Brick>,
)
    requires
        sb.remain_bricks == scorable_count(bricks),
    ensures
        collision_outcome(sb, ball, bonus, colliders, bricks).remain == sb.remain_bricks
            - hit_count_from(ball.spec_rect(), bricks, 0),
        collision_outcome(sb, ball, bonus, colliders, bricks).remain >= 0,
{
    lemma_hit_count_le_scorable(ball.spec_rect(), bricks, 0);
    lemma_brick_scan_remain(
        ball.spec_rect(),
        bricks,
        0,
        collision_start(sb, ball, bonus, colliders),
    );
}

} // verus!
