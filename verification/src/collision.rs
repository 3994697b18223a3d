//! Collision resolution: one fixed tick of ball against walls, paddle and
//! bricks, with reflection, scoring, streak and penalty rules.
//!
//! The executable system is specified against two recursive scans:
//! `wall_scan_from` walks the static colliders and stops at the first
//! solid hit, and `brick_scan_from` walks every brick unconditionally.
//! Both are composed into `collision_outcome`.

use vstd::prelude::*;

use crate::entities::{
    lemma_scorable_from_congruent, scorable, scorable_from, timer_at_most, Ball, Brick,
    ColliderKind, Obstacle, Paddle, Scoreboard, TextBonus, Vel, BONUS_FULL, BOUNCE_FULL,
    LEVEL_DONE, POTENTIAL_LIMIT, SCORE_FLASH,
};
use crate::geom::{collide, collision_side, Collision, Rect};

verus! {

/// Whether the velocity aims at the reported side; only a ball moving
/// into the obstacle is reflected, never one already moving away.
pub open spec fn drives_into(v: Vel, side: Collision) -> bool {
    match side {
        Collision::Left => v.x > 0,
        Collision::Right => v.x < 0,
        Collision::Top => v.y < 0,
        Collision::Bottom => v.y > 0,
    }
}

/// Velocity `v` reflected off `side`: the component driving into the
/// obstacle flips its sign, everything else is untouched.
pub open spec fn reflected(v: Vel, side: Collision) -> Vel {
    if drives_into(v, side) {
        match side {
            Collision::Left | Collision::Right => Vel { x: (-(v.x as int)) as i64, y: v.y },
            Collision::Top | Collision::Bottom => Vel { x: v.x, y: (-(v.y as int)) as i64 },
        }
    } else {
        v
    }
}

fn reflect_vel(v: Vel, side: Collision) -> (r: Vel)
    requires
        v.wf(),
    ensures
        r == reflected(v, side),
        r.wf(),
{
    match side {
        Collision::Left => if v.x > 0 {
            Vel { x: -v.x, y: v.y }
        } else {
            v
        },
        Collision::Right => if v.x < 0 {
            Vel { x: -v.x, y: v.y }
        } else {
            v
        },
        Collision::Top => if v.y < 0 {
            Vel { x: v.x, y: -v.y }
        } else {
            v
        },
        Collision::Bottom => if v.y > 0 {
            Vel { x: v.x, y: -v.y }
        } else {
            v
        },
    }
}

/// Running state of the static-collider scan.
pub struct WallScan {
    pub vel: Vel,
    pub keeping: bool,
    pub brick_in_row: u64,
    pub penalty: u64,
    pub collided: bool,
    pub hit_paddle: bool,
}

/// The scan state after one collider hit: any hit drops the streak-keeping
/// flag and reflects; a paddle hit marks the paddle (penalty 2 on its
/// bottom face); a solid hit whose top face meets a downward ball resets
/// the streak to 1 and raises the penalty to at least 1.
pub open spec fn wall_hit_applied(st: WallScan, kind: ColliderKind, side: Collision) -> WallScan {
    let st1 = WallScan { vel: reflected(st.vel, side), keeping: false, collided: true, ..st };
    match kind {
        ColliderKind::Paddle => WallScan {
            penalty: if side is Bottom {
                2
            } else {
                st1.penalty
            },
            hit_paddle: true,
            ..st1
        },
        ColliderKind::Solid => if side is Top && st.vel.y < 0 {
            WallScan {
                brick_in_row: 1,
                keeping: false,
                penalty: if st1.penalty < 1 {
                    1
                } else {
                    st1.penalty
                },
                ..st1
            }
        } else {
            st1
        },
    }
}

/// Scan the static colliders from index `i` on: misses are skipped, a
/// paddle hit is applied and the scan goes on, and the first solid hit is
/// applied and stops the scan.
pub open spec fn wall_scan_from(ball: Rect, obs: Seq<Obstacle>, i: int, st: WallScan) -> WallScan
    decreases obs.len() - i,
{
    if i < 0 || i >= obs.len() {
        st
    } else {
        match collision_side(ball, obs[i].rect) {
            None => wall_scan_from(ball, obs, i + 1, st),
            Some(side) => {
                let st1 = wall_hit_applied(st, obs[i].kind, side);
                if obs[i].kind is Solid {
                    st1
                } else {
                    wall_scan_from(ball, obs, i + 1, st1)
                }
            },
        }
    }
}

/// The whole static-collider phase for a tick, started from the
/// scoreboard's streak state and the ball's velocity.
pub open spec fn wall_phase(sb: Scoreboard, ball: Ball, colliders: Seq<Obstacle>) -> WallScan {
    wall_scan_from(
        ball.spec_rect(),
        colliders,
        0,
        WallScan {
            vel: ball.vel,
            keeping: sb.keeping,
            brick_in_row: sb.brick_in_row,
            penalty: 0,
            collided: false,
            hit_paddle: false,
        },
    )
}

/// The score after the wall phase's penalty: nothing once the level is
/// cleared, halved (integer floor) for penalty 2, one point (floored at
/// zero) for penalty 1.
pub open spec fn score_after_penalty(score: u64, remain: u64, penalty: u64) -> u64 {
    if remain == 0 {
        score
    } else if penalty == 2 {
        (score / 2) as u64
    } else if penalty == 1 && score > 0 {
        (score - 1) as u64
    } else {
        score
    }
}

/// Whether the penalty touched the score (and so arms the score flash).
pub open spec fn penalty_changes_score(score: u64, remain: u64, penalty: u64) -> bool {
    remain > 0 && (penalty == 2 || (penalty == 1 && score > 0))
}

/// Running state of the brick scan (and of the whole tick's outcome).
pub struct BrickScan {
    pub vel: Vel,
    pub keeping: bool,
    pub brick_in_row: u64,
    pub score: u64,
    pub remain: u64,
    pub just_changed: Option<u32>,
    pub bonus_show: Option<u32>,
    pub bonus_row: u64,
    pub collided: bool,
    pub score_changed: bool,
}

/// The sum that bounds all scoring arithmetic reachable from a scan state.
pub open spec fn pot_of(st: BrickScan) -> int {
    st.score + st.remain * (st.brick_in_row + st.remain)
}

/// One scored-or-not brick hit: while bricks remain it extends the streak
/// (when kept), shows the bonus notice past a streak of 1, adds the streak
/// to the score, consumes the brick and arms the completion flash on the
/// last one; in every case the brick takes the ball's velocity and a fresh
/// bounce timer, and the ball reflects.
pub open spec fn brick_hit_applied(st: BrickScan, b: Brick, side: Collision) -> (BrickScan, Brick) {
    let scored = st.remain > 0;
    let streak1 = if scored && st.keeping {
        (st.brick_in_row + 1) as u64
    } else {
        st.brick_in_row
    };
    let show_bonus = scored && st.keeping && streak1 > 1;
    let score1 = if scored {
        (st.score + streak1) as u64
    } else {
        st.score
    };
    let remain1 = if scored {
        (st.remain - 1) as u64
    } else {
        st.remain
    };
    let st1 = BrickScan {
        vel: reflected(st.vel, side),
        keeping: if scored {
            true
        } else {
            st.keeping
        },
        brick_in_row: streak1,
        score: score1,
        remain: remain1,
        just_changed: if scored && remain1 == 0 {
            Some(LEVEL_DONE)
        } else {
            st.just_changed
        },
        bonus_show: if show_bonus {
            Some(BONUS_FULL)
        } else {
            st.bonus_show
        },
        bonus_row: if show_bonus {
            streak1
        } else {
            st.bonus_row
        },
        collided: true,
        score_changed: scored || st.score_changed,
    };
    let nb = Brick { velocity: Some(st.vel), just_bounced: Some(BOUNCE_FULL), ..b };
    (st1, nb)
}

/// A brick the ball hits this tick and that still counts: it exists, its
/// box meets the ball's, and it has not started bouncing out.
pub open spec fn brick_is_hit(ball: Rect, b: Brick) -> bool {
    b.alive && collision_side(ball, b.rect) is Some && b.just_bounced is None
}

/// How many distinct counting bricks of `s[i..]` the ball hits this tick.
pub open spec fn hit_count_from(ball: Rect, s: Seq<Brick>, i: int) -> nat
    decreases s.len() - i,
{
    if i < 0 || i >= s.len() {
        0
    } else {
        (if brick_is_hit(ball, s[i]) {
            1nat
        } else {
            0nat
        }) + hit_count_from(ball, s, i + 1)
    }
}

/// Scan the bricks from index `i` on: every hit on a counting brick is
/// applied; bricks already bouncing out are passed over.
pub open spec fn brick_scan_from(ball: Rect, bricks: Seq<Brick>, i: int, st: BrickScan) -> (
    BrickScan,
    Seq<Brick>,
)
    decreases bricks.len() - i,
{
    if i < 0 || i >= bricks.len() {
        (st, bricks)
    } else if brick_is_hit(ball, bricks[i]) {
        let hit = brick_hit_applied(
            st,
            bricks[i],
            collision_side(ball, bricks[i].rect)->Some_0,
        );
        brick_scan_from(ball, bricks.update(i, hit.1), i + 1, hit.0)
    } else {
        brick_scan_from(ball, bricks, i + 1, st)
    }
}

/// The scan state the brick phase starts from: the wall phase's streak and
/// velocity, the penalized score, and the untouched displays.
pub open spec fn collision_start(
    sb: Scoreboard,
    ball: Ball,
    bonus: TextBonus,
    colliders: Seq<Obstacle>,
) -> BrickScan {
    let w = wall_phase(sb, ball, colliders);
    BrickScan {
        vel: w.vel,
        keeping: w.keeping,
        brick_in_row: w.brick_in_row,
        score: score_after_penalty(sb.score, sb.remain_bricks, w.penalty),
        remain: sb.remain_bricks,
        just_changed: sb.just_changed,
        bonus_show: bonus.show,
        bonus_row: bonus.row,
        collided: w.collided,
        score_changed: penalty_changes_score(sb.score, sb.remain_bricks, w.penalty),
    }
}

/// The scalar outcome of one whole collision tick.
pub open spec fn collision_outcome(
    sb: Scoreboard,
    ball: Ball,
    bonus: TextBonus,
    colliders: Seq<Obstacle>,
    bricks: Seq<Brick>,
) -> BrickScan {
    brick_scan_from(ball.spec_rect(), bricks, 0, collision_start(sb, ball, bonus, colliders)).0
}

/// The bricks after one whole collision tick.
pub open spec fn collision_bricks(
    sb: Scoreboard,
    ball: Ball,
    bonus: TextBonus,
    colliders: Seq<Obstacle>,
    bricks: Seq<Brick>,
) -> Seq<Brick> {
    brick_scan_from(ball.spec_rect(), bricks, 0, collision_start(sb, ball, bonus, colliders)).1
}

/// The scoreboard the outcome writes back, arming the short score flash
/// when the score changed and no flash is running.
pub open spec fn scoreboard_after(out: BrickScan) -> Scoreboard {
    Scoreboard {
        score: out.score,
        remain_bricks: out.remain,
        brick_in_row: out.brick_in_row,
        keeping: out.keeping,
        just_changed: if out.score_changed && out.just_changed is None {
            Some(SCORE_FLASH)
        } else {
            out.just_changed
        },
    }
}

/// The ball after the tick: the outcome's velocity, and a fresh bounce
/// timer when anything was hit.
pub open spec fn ball_after(b: Ball, out: BrickScan) -> Ball {
    Ball {
        vel: out.vel,
        just_bounced: if out.collided {
            Some(BOUNCE_FULL)
        } else {
            b.just_bounced
        },
        ..b
    }
}

/// The paddle after the tick: a fresh bounce timer when the ball met it.
pub open spec fn paddle_after(p: Paddle, hit_paddle: bool) -> Paddle {
    if hit_paddle {
        Paddle { just_bounced: Some(BOUNCE_FULL), ..p }
    } else {
        p
    }
}

/// The bonus notice after the tick.
pub open spec fn bonus_after(out: BrickScan) -> TextBonus {
    TextBonus { show: out.bonus_show, row: out.bonus_row }
}

/// The wall scan keeps velocities well-formed, keeps the streak at its
/// start value or resets it to 1, and never raises the penalty above 2.
pub proof fn lemma_wall_scan_bounds(ball: Rect, obs: Seq<Obstacle>, i: int, st: WallScan)
    requires
        st.vel.wf(),
        st.penalty <= 2,
    ensures
        wall_scan_from(ball, obs, i, st).vel.wf(),
        wall_scan_from(ball, obs, i, st).brick_in_row == st.brick_in_row || wall_scan_from(
            ball,
            obs,
            i,
            st,
        ).brick_in_row == 1,
        wall_scan_from(ball, obs, i, st).penalty <= 2,
    decreases obs.len() - i,
{
    if i < 0 || i >= obs.len() {
    } else {
        match collision_side(ball, obs[i].rect) {
            None => lemma_wall_scan_bounds(ball, obs, i + 1, st),
            Some(side) => {
                let st1 = wall_hit_applied(st, obs[i].kind, side);
                if !(obs[i].kind is Solid) {
                    lemma_wall_scan_bounds(ball, obs, i + 1, st1);
                }
            },
        }
    }
}

/// A scan state with a brick remaining keeps its score and streak under
/// the potential, so the scoring additions fit `u64`.
proof fn lemma_scan_hit_fits(st: BrickScan)
    requires
        1 <= st.brick_in_row,
        pot_of(st) <= POTENTIAL_LIMIT,
        st.remain >= 1,
    ensures
        st.brick_in_row <= POTENTIAL_LIMIT,
        st.score <= POTENTIAL_LIMIT,
{
    assert(st.remain * (st.brick_in_row + st.remain) >= st.brick_in_row) by (nonlinear_arith)
        requires
            st.remain >= 1,
            st.brick_in_row >= 1,
    ;
}

/// One brick hit keeps the streak at least 1 and never grows the
/// potential: the added streak is paid for by the consumed brick.
pub proof fn lemma_brick_hit_pot(st: BrickScan, b: Brick, side: Collision)
    requires
        1 <= st.brick_in_row,
        pot_of(st) <= POTENTIAL_LIMIT,
    ensures
        1 <= brick_hit_applied(st, b, side).0.brick_in_row,
        pot_of(brick_hit_applied(st, b, side).0) <= pot_of(st),
{
    if st.remain > 0 {
        lemma_scan_hit_fits(st);
        let s = st.score as int;
        let k = st.brick_in_row as int;
        let r = st.remain as int;
        if st.keeping {
            assert(s + (k + 1) + (r - 1) * ((k + 1) + (r - 1)) <= s + r * (k + r))
                by (nonlinear_arith)
                requires
                    r >= 1,
                    k >= 1,
            ;
        } else {
            assert(s + k + (r - 1) * (k + (r - 1)) <= s + r * (k + r)) by (nonlinear_arith)
                requires
                    r >= 1,
                    k >= 1,
            ;
        }
    }
}

/// Every brick the ball hits this tick still counts, so the hit count
/// never exceeds the count of counting bricks.
pub proof fn lemma_hit_count_le_scorable(ball: Rect, s: Seq<Brick>, i: int)
    ensures
        hit_count_from(ball, s, i) <= scorable_from(s, i),
    decreases s.len() - i,
{
    if 0 <= i < s.len() {
        lemma_hit_count_le_scorable(ball, s, i + 1);
    }
}

/// Two arenas whose bricks agree from `i` on see the same hits from `i`
/// on.
pub proof fn lemma_hit_count_from_congruent(ball: Rect, s1: Seq<Brick>, s2: Seq<Brick>, i: int)
    requires
        s1.len() == s2.len(),
        forall|j: int| i <= j < s1.len() ==> #[trigger] s1[j] == s2[j],
    ensures
        hit_count_from(ball, s1, i) == hit_count_from(ball, s2, i),
    decreases s1.len() - i,
{
    if 0 <= i < s1.len() {
        lemma_hit_count_from_congruent(ball, s1, s2, i + 1);
    }
}

/// The brick scan keeps the arena's length.
pub proof fn lemma_brick_scan_len(ball: Rect, bricks: Seq<Brick>, i: int, st: BrickScan)
    ensures
        brick_scan_from(ball, bricks, i, st).1.len() == bricks.len(),
    decreases bricks.len() - i,
{
    if i < 0 || i >= bricks.len() {
    } else if brick_is_hit(ball, bricks[i]) {
        let hit = brick_hit_applied(st, bricks[i], collision_side(ball, bricks[i].rect)->Some_0);
        lemma_brick_scan_len(ball, bricks.update(i, hit.1), i + 1, hit.0);
    } else {
        lemma_brick_scan_len(ball, bricks, i + 1, st);
    }
}

/// The brick scan leaves the bricks before `i` alone.
pub proof fn lemma_brick_scan_prefix(ball: Rect, bricks: Seq<Brick>, i: int, st: BrickScan)
    ensures
        forall|j: int|
            0 <= j < i && j < bricks.len() ==> #[trigger] brick_scan_from(
                ball,
                bricks,
                i,
                st,
            ).1[j] == bricks[j],
    decreases bricks.len() - i,
{
    lemma_brick_scan_len(ball, bricks, i, st);
    if i < 0 || i >= bricks.len() {
    } else if brick_is_hit(ball, bricks[i]) {
        let hit = brick_hit_applied(st, bricks[i], collision_side(ball, bricks[i].rect)->Some_0);
        let updated = bricks.update(i, hit.1);
        assert(brick_scan_from(ball, bricks, i, st) == brick_scan_from(
            ball,
            updated,
            i + 1,
            hit.0,
        ));
        lemma_brick_scan_prefix(ball, updated, i + 1, hit.0);
        assert(forall|j: int| 0 <= j < i ==> #[trigger] updated[j] == bricks[j]);
    } else {
        assert(brick_scan_from(ball, bricks, i, st) == brick_scan_from(ball, bricks, i + 1, st));
        lemma_brick_scan_prefix(ball, bricks, i + 1, st);
    }
}

/// A scan that meets no counting brick changes nothing.
pub proof fn lemma_brick_scan_no_hits(ball: Rect, bricks: Seq<Brick>, i: int, st: BrickScan)
    requires
        hit_count_from(ball, bricks, i) == 0,
    ensures
        brick_scan_from(ball, bricks, i, st).0 == st,
        brick_scan_from(ball, bricks, i, st).1 == bricks,
    decreases bricks.len() - i,
{
    if i < 0 || i >= bricks.len() {
    } else {
        lemma_brick_scan_no_hits(ball, bricks, i + 1, st);
    }
}

/// When the remaining count covers every hit still ahead — as it does in
/// a consistent world, where it equals the number of counting bricks —
/// the scan consumes exactly one remaining brick per hit, and the bricks
/// that still count afterwards are the counting bricks that were not hit.
pub proof fn lemma_brick_scan_remain(ball: Rect, bricks: Seq<Brick>, i: int, st: BrickScan)
    requires
        st.remain >= hit_count_from(ball, bricks, i),
    ensures
        brick_scan_from(ball, bricks, i, st).0.remain == st.remain - hit_count_from(
            ball,
            bricks,
            i,
        ),
        scorable_from(brick_scan_from(ball, bricks, i, st).1, i) == scorable_from(bricks, i)
            - hit_count_from(ball, bricks, i),
    decreases bricks.len() - i,
{
    lemma_hit_count_le_scorable(ball, bricks, i);
    lemma_brick_scan_len(ball, bricks, i, st);
    if i < 0 || i >= bricks.len() {
    } else if brick_is_hit(ball, bricks[i]) {
        let hit = brick_hit_applied(st, bricks[i], collision_side(ball, bricks[i].rect)->Some_0);
        let updated = bricks.update(i, hit.1);
        assert(brick_scan_from(ball, bricks, i, st) == brick_scan_from(
            ball,
            updated,
            i + 1,
            hit.0,
        ));
        assert(forall|j: int| i + 1 <= j < bricks.len() ==> #[trigger] updated[j] == bricks[j]);
        lemma_hit_count_from_congruent(ball, updated, bricks, i + 1);
        lemma_scorable_from_congruent(updated, bricks, i + 1);
        lemma_brick_scan_remain(ball, updated, i + 1, hit.0);
        lemma_brick_scan_prefix(ball, updated, i + 1, hit.0);
        assert(brick_scan_from(ball, bricks, i, st).1[i] == hit.1);
        assert(!scorable(hit.1));
    } else {
        assert(brick_scan_from(ball, bricks, i, st) == brick_scan_from(ball, bricks, i + 1, st));
        lemma_brick_scan_remain(ball, bricks, i + 1, st);
        lemma_brick_scan_prefix(ball, bricks, i + 1, st);
        assert(brick_scan_from(ball, bricks, i, st).1[i] == bricks[i]);
    }
}

/// Resolve one tick of collisions: scan the static colliders (first solid
/// hit ends the scan), apply the penalty to the score, scan every brick,
/// then arm the bounce and flash timers of whatever was hit.
pub fn ball_collision_system(
    sb: &mut Scoreboard,
    paddle: &mut Paddle,
    ball: &mut Ball,
    bricks: &mut Vec<Brick>,
    bonus: &mut TextBonus,
    colliders: &Vec<Obstacle>,
)
    requires
        old(sb).wf(),
        old(paddle).wf(),
        old(ball).wf(),
        old(ball).spec_rect().wf(),
        old(bonus).wf(),
        forall|i: int| 0 <= i < colliders@.len() ==> (#[trigger] colliders@[i]).wf(),
        forall|i: int|
            0 <= i < old(bricks)@.len() ==> (#[trigger] old(bricks)@[i]).wf() && old(
                bricks,
            )@[i].rect.wf(),
    ensures
        *final(sb) == scoreboard_after(
            collision_outcome(*old(sb), *old(ball), *old(bonus), colliders@, old(bricks)@),
        ),
        *final(ball) == ball_after(
            *old(ball),
            collision_outcome(*old(sb), *old(ball), *old(bonus), colliders@, old(bricks)@),
        ),
        *final(paddle) == paddle_after(
            *old(paddle),
            wall_phase(*old(sb), *old(ball), colliders@).hit_paddle,
        ),
        *final(bonus) == bonus_after(
            collision_outcome(*old(sb), *old(ball), *old(bonus), colliders@, old(bricks)@),
        ),
        final(bricks)@ == collision_bricks(
            *old(sb),
            *old(ball),
            *old(bonus),
            colliders@,
            old(bricks)@,
        ),
        final(sb).wf(),
        final(ball).wf(),
        final(paddle).wf(),
        final(bonus).wf(),
        forall|i: int| 0 <= i < final(bricks)@.len() ==> (#[trigger] final(bricks)@[i]).wf(),
        final(bricks)@.len() == old(bricks)@.len(),
        forall|i: int|
            0 <= i < final(bricks)@.len() ==> (#[trigger] final(bricks)@[i]).rect == old(
                bricks,
            )@[i].rect && final(bricks)@[i].alive == old(bricks)@[i].alive,
{
    let ball_rect = ball.rect();
    let mut st = WallScan {
        vel: ball.vel,
        keeping: sb.keeping,
        brick_in_row: sb.brick_in_row,
        penalty: 0,
        collided: false,
        hit_paddle: false,
    };
    let ghost init = st;
    let n = colliders.len();
    let mut i: usize = 0;
    while i < n
        invariant_except_break
            i <= n,
            n == colliders@.len(),
            ball_rect.wf(),
            forall|j: int| 0 <= j < colliders@.len() ==> (#[trigger] colliders@[j]).wf(),
            st.vel.wf(),
            wall_scan_from(ball_rect, colliders@, 0, init) == wall_scan_from(
                ball_rect,
                colliders@,
                i as int,
                st,
            ),
        ensures
            st == wall_scan_from(ball_rect, colliders@, 0, init),
            st.vel.wf(),
        decreases n - i,
    {
        let o = &colliders[i];
        match collide(&ball_rect, &o.rect) {
            None => {},
            Some(side) => {
                let ghost st_pre = st;
                let driving_y = st.vel.y < 0;
                st.collided = true;
                st.keeping = false;
                st.vel = reflect_vel(st.vel, side);
                match o.kind {
                    ColliderKind::Paddle => {
                        if matches!(side, Collision::Bottom) {
                            st.penalty = 2;
                        }
                        st.hit_paddle = true;
                        proof {
                            assert(st == wall_hit_applied(st_pre, colliders@[i as int].kind, side));
                        }
                    },
                    ColliderKind::Solid => {
                        if matches!(side, Collision::Top) && driving_y {
                            st.brick_in_row = 1;
                            st.keeping = false;
                            if st.penalty < 1 {
                                st.penalty = 1;
                            }
                        }
                        proof {
                            assert(st == wall_hit_applied(st_pre, colliders@[i as int].kind, side));
                        }
                        break ;
                    },
                }
            },
        }
        i = i + 1;
    }
    proof {
        lemma_wall_scan_bounds(ball_rect, colliders@, 0, init);
    }
    let score_changed: bool;
    if sb.remain_bricks == 0 {
        score_changed = false;
    } else if st.penalty == 2 {
        sb.score = sb.score / 2;
        score_changed = true;
    } else if st.penalty == 1 && sb.score > 0 {
        sb.score = sb.score - 1;
        score_changed = true;
    } else {
        score_changed = false;
    }
    let mut bst = BrickScan {
        vel: st.vel,
        keeping: st.keeping,
        brick_in_row: st.brick_in_row,
        score: sb.score,
        remain: sb.remain_bricks,
        just_changed: sb.just_changed,
        bonus_show: bonus.show,
        bonus_row: bonus.row,
        collided: st.collided,
        score_changed,
    };
    let ghost bst0 = bst;
    let ghost bricks0 = bricks@;
    proof {
        assert(bst0 == collision_start(*old(sb), *old(ball), *old(bonus), colliders@));
        assert(bst0.brick_in_row >= 1 && pot_of(bst0) <= POTENTIAL_LIMIT) by {
            let k0 = old(sb).brick_in_row as int;
            let k1 = bst0.brick_in_row as int;
            let r = old(sb).remain_bricks as int;
            assert(r * (k1 + r) <= r * (k0 + r)) by (nonlinear_arith)
                requires
                    0 <= r,
                    1 <= k1 <= k0,
            ;
        }
    }
    let m = bricks.len();
    let mut j: usize = 0;
    while j < m
        invariant
            j <= m,
            m == bricks@.len() == bricks0.len(),
            ball_rect.wf(),
            forall|k: int| 0 <= k < m ==> (#[trigger] bricks0[k]).wf() && bricks0[k].rect.wf(),
            forall|k: int| j <= k < m ==> #[trigger] bricks@[k] == bricks0[k],
            forall|k: int| 0 <= k < m ==> (#[trigger] bricks@[k]).wf(),
            forall|k: int|
                0 <= k < m ==> (#[trigger] bricks@[k]).rect == bricks0[k].rect && bricks@[k].alive
                    == bricks0[k].alive,
            bst.vel.wf(),
            1 <= bst.brick_in_row,
            pot_of(bst) <= POTENTIAL_LIMIT,
            timer_at_most(bst.just_changed, LEVEL_DONE),
            timer_at_most(bst.bonus_show, BONUS_FULL),
            brick_scan_from(ball_rect, bricks0, 0, bst0) == brick_scan_from(
                ball_rect,
                bricks@,
                j as int,
                bst,
            ),
        decreases m - j,
    {
        let b = bricks[j];
        if b.alive {
            match collide(&ball_rect, &b.rect) {
                None => {},
                Some(side) => {
                    if b.just_bounced.is_none() {
                        let ghost bst_pre = bst;
                        let ghost bricks_pre = bricks@;
                        proof {
                            lemma_brick_hit_pot(bst, b, side);
                            if bst.remain >= 1 {
                                lemma_scan_hit_fits(bst);
                            }
                        }
                        bst.collided = true;
                        if bst.remain > 0 {
                            if bst.keeping {
                                bst.brick_in_row = bst.brick_in_row + 1;
                                if bst.brick_in_row > 1 {
                                    bst.bonus_row = bst.brick_in_row;
                                    bst.bonus_show = Some(BONUS_FULL);
                                }
                            }
                            bst.keeping = true;
                            bst.score = bst.score + bst.brick_in_row;
                            bst.remain = bst.remain - 1;
                            if bst.remain == 0 {
                                bst.just_changed = Some(LEVEL_DONE);
                            }
                            bst.score_changed = true;
                        }
                        let mut nb = b;
                        nb.velocity = Some(bst.vel);
                        nb.just_bounced = Some(BOUNCE_FULL);
                        bricks.set(j, nb);
                        bst.vel = reflect_vel(bst.vel, side);
                        proof {
                            let hit = brick_hit_applied(bst_pre, bricks_pre[j as int], side);
                            assert(bst == hit.0);
                            assert(bricks@ == bricks_pre.update(j as int, hit.1));
                        }
                    }
                },
            }
        }
        j = j + 1;
    }
    proof {
        assert(brick_scan_from(ball_rect, bricks@, m as int, bst) == (bst, bricks@));
    }
    sb.score = bst.score;
    sb.remain_bricks = bst.remain;
    sb.brick_in_row = bst.brick_in_row;
    sb.keeping = bst.keeping;
    sb.just_changed = bst.just_changed;
    bonus.show = bst.bonus_show;
    bonus.row = bst.bonus_row;
    ball.vel = bst.vel;
    if bst.collided {
        ball.just_bounced = Some(BOUNCE_FULL);
    }
    if st.hit_paddle {
        paddle.just_bounced = Some(BOUNCE_FULL);
    }
    if bst.score_changed && sb.just_changed.is_none() {
        sb.just_changed = Some(SCORE_FLASH);
    }
}

} // verus!
