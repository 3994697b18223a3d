//! The game's entity records: ball, paddle, bricks, wall colliders,
//! scoreboard and the bonus notice.
//!
//! All of them are plain integer records.  Distances are thousandths of a
//! world unit, angles thousandths of a radian, timers thousandths of the
//! animation value.

use vstd::prelude::*;

use crate::geom::{Rect, COORD_LIMIT};

verus! {

/// Velocities are kept within this bound (thousandths of a unit per
/// second); a reflection only flips a sign, so it is preserved exactly.
pub const VEL_LIMIT: i64 = 1_000_000_000;

/// Freshly armed bounce timer of ball, paddle and bricks (the value 1.0).
pub const BOUNCE_FULL: u32 = 1000;

/// Freshly armed bonus-notice timer (the value 2.0).
pub const BONUS_FULL: u32 = 2000;

/// Scoreboard flash armed when the score changes (the value 4.0).
pub const SCORE_FLASH: u32 = 4000;

/// Long scoreboard timer armed when the last brick falls (the value 100).
pub const LEVEL_DONE: u32 = 100_000;

/// The paddle center is clamped to this horizontal range every tick.
pub const PADDLE_RANGE: i64 = 400_000;

/// One full turn, in thousandths of a radian; the ball's rotation is kept
/// within it.
pub const FULL_TURN: i64 = 6283;

/// A hit brick's random tilt stays below this angle (0.4 radians).
pub const BRICK_SPIN_LIMIT: i64 = 400;

/// Bound on the sum that scoring arithmetic can reach; `Scoreboard::wf`
/// keeps the score potential under it so that no addition overflows `u64`.
pub const POTENTIAL_LIMIT: u64 = 1_000_000_000_000_000_000;

/// A timer is either clear or within its cap.
pub open spec fn timer_at_most(t: Option<u32>, cap: u32) -> bool {
    match t {
        None => true,
        Some(v) => v <= cap,
    }
}

/// A velocity vector, in thousandths of a unit per second.
#[derive(Clone, Copy, Debug, PartialEq, Eq, Structural)]
pub struct Vel {
    pub x: i64,
    pub y: i64,
}

impl Vel {
    pub open spec fn wf(self) -> bool {
        &&& -VEL_LIMIT <= self.x <= VEL_LIMIT
        &&& -VEL_LIMIT <= self.y <= VEL_LIMIT
    }
}

/// The ball: center position, square visual size (also its collision
/// extent), velocity, spin angle and bounce timer.
#[derive(Clone, Copy, Debug, PartialEq, Eq, Structural)]
pub struct Ball {
    pub cx: i64,
    pub cy: i64,
    pub size: i64,
    pub vel: Vel,
    pub rotation: i64,
    pub just_bounced: Option<u32>,
}

impl Ball {
    pub open spec fn wf(self) -> bool {
        &&& self.vel.wf()
        &&& 0 <= self.size <= COORD_LIMIT
        &&& 0 <= self.rotation < FULL_TURN
        &&& timer_at_most(self.just_bounced, BOUNCE_FULL)
    }

    /// The ball's bounding box.
    pub open spec fn spec_rect(self) -> Rect {
        Rect { cx: self.cx, cy: self.cy, w: self.size, h: self.size }
    }

    pub fn rect(&self) -> (r: Rect)
        ensures
            r == self.spec_rect(),
    {
        Rect { cx: self.cx, cy: self.cy, w: self.size, h: self.size }
    }
}

/// The paddle: horizontal center, speed constant and bounce timer.  Its
/// vertical position and extent are fixed at setup in its collider entry.
#[derive(Clone, Copy, Debug, PartialEq, Eq, Structural)]
pub struct Paddle {
    pub x: i64,
    pub speed: i64,
    pub just_bounced: Option<u32>,
}

impl Paddle {
    pub open spec fn wf(self) -> bool {
        &&& -PADDLE_RANGE <= self.x <= PADDLE_RANGE
        &&& 0 <= self.speed <= VEL_LIMIT
        &&& timer_at_most(self.just_bounced, BOUNCE_FULL)
    }
}

/// A brick: its box, the drift velocity stored when the ball hits it, a
/// random tilt, the bounce timer whose expiry removes it, and whether it
/// still exists in the arena.
#[derive(Clone, Copy, Debug, PartialEq, Eq, Structural)]
pub struct Brick {
    pub rect: Rect,
    pub velocity: Option<Vel>,
    pub rotation: i64,
    pub just_bounced: Option<u32>,
    pub alive: bool,
}

impl Brick {
    pub open spec fn wf(self) -> bool {
        &&& 0 <= self.rect.w <= COORD_LIMIT
        &&& 0 <= self.rect.h <= COORD_LIMIT
        &&& match self.velocity {
            None => true,
            Some(v) => v.wf(),
        }
        &&& 0 <= self.rotation < BRICK_SPIN_LIMIT
        &&& timer_at_most(self.just_bounced, BOUNCE_FULL)
    }
}

/// A brick still counts toward the remaining total while it exists and
/// has not started its bounce-out animation.
pub open spec fn scorable(b: Brick) -> bool {
    b.alive && b.just_bounced is None
}

/// How many bricks of `s[i..]` still count toward the remaining total.
pub open spec fn scorable_from(s: Seq<Brick>, i: int) -> nat
    decreases s.len() - i,
{
    if i < 0 || i >= s.len() {
        0
    } else {
        (if scorable(s[i]) {
            1nat
        } else {
            0nat
        }) + scorable_from(s, i + 1)
    }
}

/// How many bricks of the arena still count toward the remaining total.
pub open spec fn scorable_count(s: Seq<Brick>) -> nat {
    scorable_from(s, 0)
}

/// A suffix in which every brick counts contributes its whole length.
pub proof fn lemma_scorable_from_all(s: Seq<Brick>, i: int)
    requires
        0 <= i <= s.len(),
        forall|j: int| i <= j < s.len() ==> scorable(#[trigger] s[j]),
    ensures
        scorable_from(s, i) == s.len() - i,
    decreases s.len() - i,
{
    if i < s.len() {
        lemma_scorable_from_all(s, i + 1);
    }
}

/// Two arenas whose bricks count alike from `i` on have the same count
/// from `i` on.
pub proof fn lemma_scorable_from_congruent(s1: Seq<Brick>, s2: Seq<Brick>, i: int)
    requires
        s1.len() == s2.len(),
        forall|j: int| i <= j < s1.len() ==> scorable(#[trigger] s1[j]) == scorable(s2[j]),
    ensures
        scorable_from(s1, i) == scorable_from(s2, i),
    decreases s1.len() - i,
{
    if 0 <= i < s1.len() {
        lemma_scorable_from_congruent(s1, s2, i + 1);
    }
}

/// The tag of a static collider.
#[derive(Clone, Copy, Debug, PartialEq, Eq, Structural)]
pub enum ColliderKind {
    Solid,
    Paddle,
}

/// A static collider: the four walls and the paddle's collision box.
#[derive(Clone, Copy, Debug, PartialEq, Eq, Structural)]
pub struct Obstacle {
    pub kind: ColliderKind,
    pub rect: Rect,
}

impl Obstacle {
    pub open spec fn wf(self) -> bool {
        self.rect.wf()
    }
}

/// The scoreboard: score, bricks still standing, the brick-in-row streak,
/// whether the streak is being kept, and the display-flash timer.
#[derive(Clone, Copy, Debug, PartialEq, Eq, Structural)]
pub struct Scoreboard {
    pub score: u64,
    pub remain_bricks: u64,
    pub brick_in_row: u64,
    pub keeping: bool,
    pub just_changed: Option<u32>,
}

impl Scoreboard {
    /// An upper bound on every value scoring arithmetic can produce from
    /// this state: destroying a brick adds the streak but also consumes a
    /// remaining brick, so this sum never grows.
    pub open spec fn potential(self) -> int {
        self.score + self.remain_bricks * (self.brick_in_row + self.remain_bricks)
    }

    pub open spec fn wf(self) -> bool {
        &&& 1 <= self.brick_in_row
        &&& self.potential() <= POTENTIAL_LIMIT
        &&& timer_at_most(self.just_changed, LEVEL_DONE)
    }
}

/// The "+n" bonus notice: its fade timer and the streak value it shows.
#[derive(Clone, Copy, Debug, PartialEq, Eq, Structural)]
pub struct TextBonus {
    pub show: Option<u32>,
    pub row: u64,
}

impl TextBonus {
    pub open spec fn wf(self) -> bool {
        timer_at_most(self.show, BONUS_FULL)
    }
}

} // verus!
