//! The game world: one arena of typed records — ball, paddle, static
//! colliders, the brick grid, scoreboard and bonus notice — advanced by a
//! fixed-order scheduler: paddle, collisions, ball, bricks each simulation
//! tick, and the two display systems each rendered frame.

use vstd::prelude::*;

use crate::collision::{
    ball_after, ball_collision_system, bonus_after, collision_bricks, collision_outcome,
    collision_start, lemma_brick_scan_remain, lemma_hit_count_le_scorable, paddle_after,
    scoreboard_after, wall_phase,
};
use crate::entities::{
    lemma_scorable_from_all, lemma_scorable_from_congruent, scorable, scorable_count,
    scorable_from, Ball, Brick, ColliderKind, Obstacle, Paddle, Scoreboard, TextBonus, Vel,
};
use crate::geom::{Rect, COORD_LIMIT};
use crate::systems::{
    ball_movement_system, bonus_frame_of, bonus_notifier_system, brick_movement_system,
    brick_stepped, eye_scale_of, faded_bonus, flashed_scoreboard, lemma_brick_stepped_scorable,
    moved_ball, moved_paddle, paddle_movement_system, paddle_step, score_frame_of,
    scoreboard_system, BonusFrame, PaddleFrame, ScoreFrame, BALL_SIZE,
};

verus! {

/// Vertical center of the paddle and its eyes.
pub const PADDLE_Y: i64 = -230_000;

/// The paddle's collision box.
pub const PADDLE_W: i64 = 120_000;

pub const PADDLE_H: i64 = 30_000;

/// The paddle's speed constant.
pub const PADDLE_SPEED: i64 = 500_000;

/// Where the ball starts.
pub const BALL_START_Y: i64 = -50_000;

/// The ball's starting velocity: (0.5, -0.5) normalized, times 400.
pub const BALL_START_VX: i64 = 282_843;

pub const BALL_START_VY: i64 = -282_843;

/// Thickness of the four walls around the 960 x 680 playing field.
pub const WALL_THICKNESS: i64 = 35_000;

/// The brick grid: 4 rows of 5 bricks.
pub const BRICK_COUNT: u64 = 20;

pub const BRICK_W: i64 = 150_000;

pub const BRICK_H: i64 = 30_000;

/// Horizontal and vertical strides of the grid (brick size plus spacing).
pub const BRICK_STRIDE_X: i64 = 170_000;

pub const BRICK_STRIDE_Y: i64 = 50_000;

/// Where the grid starts: centered horizontally, moved up a bit.
pub const BRICK_ORIGIN_X: i64 = -340_000;

pub const BRICK_ORIGIN_Y: i64 = 100_000;

/// The static colliders at setup: the paddle's box, then the four walls.
pub open spec fn initial_colliders() -> Seq<Obstacle> {
    seq![
        Obstacle {
            kind: ColliderKind::Paddle,
            rect: Rect { cx: 0, cy: PADDLE_Y, w: PADDLE_W, h: PADDLE_H },
        },
        Obstacle {
            kind: ColliderKind::Solid,
            rect: Rect { cx: (-480_000) as i64, cy: 0, w: WALL_THICKNESS, h: 715_000 },
        },
        Obstacle {
            kind: ColliderKind::Solid,
            rect: Rect { cx: 480_000, cy: 0, w: WALL_THICKNESS, h: 715_000 },
        },
        Obstacle {
            kind: ColliderKind::Solid,
            rect: Rect { cx: 0, cy: (-340_000) as i64, w: 995_000, h: WALL_THICKNESS },
        },
        Obstacle {
            kind: ColliderKind::Solid,
            rect: Rect { cx: 0, cy: 340_000, w: 995_000, h: WALL_THICKNESS },
        },
    ]
}

/// Brick `i` of the setup grid, row by row from the bottom.
pub open spec fn initial_brick(i: int) -> Brick {
    Brick {
        rect: Rect {
            cx: ((i % 5) * BRICK_STRIDE_X + BRICK_ORIGIN_X) as i64,
            cy: ((i / 5) * BRICK_STRIDE_Y + BRICK_ORIGIN_Y) as i64,
            w: BRICK_W,
            h: BRICK_H,
        },
        velocity: None,
        rotation: 0,
        just_bounced: None,
        alive: true,
    }
}

/// The colliders with every paddle-tagged box recentred on the paddle.
pub open spec fn synced_colliders(cs: Seq<Obstacle>, x: i64) -> Seq<Obstacle> {
    Seq::new(
        cs.len(),
        |j: int|
            if cs[j].kind is Paddle {
                Obstacle { kind: cs[j].kind, rect: Rect { cx: x, ..cs[j].rect } }
            } else {
                cs[j]
            },
    )
}

/// The whole game state.
pub struct World {
    pub ball: Ball,
    pub paddle: Paddle,
    pub colliders: Vec<Obstacle>,
    pub bricks: Vec<Brick>,
    pub scoreboard: Scoreboard,
    pub bonus: TextBonus,
}

impl World {
    /// Every record is well-formed and the scoreboard's remaining count
    /// agrees with the bricks that still stand unbounced.
    pub open spec fn wf(self) -> bool {
        &&& self.ball.wf()
        &&& self.paddle.wf()
        &&& self.scoreboard.wf()
        &&& self.bonus.wf()
        &&& forall|i: int| 0 <= i < self.colliders@.len() ==> (#[trigger] self.colliders@[i]).wf()
        &&& forall|i: int| 0 <= i < self.bricks@.len() ==> (#[trigger] self.bricks@[i]).wf()
        &&& self.scoreboard.remain_bricks == scorable_count(self.bricks@)
    }

    /// The moving pieces sit within the coordinate bound, which gives one
    /// tick of arithmetic ample headroom.
    pub open spec fn positions_ok(self) -> bool {
        &&& self.ball.spec_rect().wf()
        &&& forall|i: int| 0 <= i < self.bricks@.len() ==> (#[trigger] self.bricks@[i]).rect.wf()
    }

    /// Whether the moving pieces sit within the coordinate bound; checked
    /// before a tick by callers that took the state from elsewhere.
    pub fn in_range(&self) -> (ok: bool)
        ensures
            ok == self.positions_ok(),
    {
        let br = self.ball.rect();
        let mut ok = -COORD_LIMIT <= br.cx && br.cx <= COORD_LIMIT && -COORD_LIMIT <= br.cy
            && br.cy <= COORD_LIMIT && 0 <= br.w && br.w <= COORD_LIMIT && 0 <= br.h && br.h
            <= COORD_LIMIT;
        let n = self.bricks.len();
        let mut i: usize = 0;
        while i < n
            invariant
                i <= n,
                n == self.bricks@.len(),
                ok == (self.ball.spec_rect().wf() && forall|j: int|
                    0 <= j < i ==> (#[trigger] self.bricks@[j]).rect.wf()),
            decreases n - i,
        {
            let r = &self.bricks[i].rect;
            ok = ok && -COORD_LIMIT <= r.cx && r.cx <= COORD_LIMIT && -COORD_LIMIT <= r.cy && r.cy
                <= COORD_LIMIT && 0 <= r.w && r.w <= COORD_LIMIT && 0 <= r.h && r.h <= COORD_LIMIT;
            i = i + 1;
        }
        ok
    }

    /// Set up the world as the game starts: paddle at the track's center,
    /// ball above it moving down-right, the four walls, a 4 × 5 brick
    /// grid, and a cleared scoreboard expecting 20 bricks.
    pub fn new() -> (w: World)
        ensures
            w.wf(),
            w.positions_ok(),
            w.ball == (Ball {
                cx: 0,
                cy: BALL_START_Y,
                size: BALL_SIZE,
                vel: Vel { x: BALL_START_VX, y: BALL_START_VY },
                rotation: 0,
                just_bounced: None,
            }),
            w.paddle == (Paddle { x: 0, speed: PADDLE_SPEED, just_bounced: None }),
            w.scoreboard == (Scoreboard {
                score: 0,
                remain_bricks: BRICK_COUNT,
                brick_in_row: 1,
                keeping: false,
                just_changed: None,
            }),
            w.bonus == (TextBonus { show: None, row: 0 }),
            w.colliders@ == initial_colliders(),
            w.bricks@.len() == BRICK_COUNT,
            forall|i: int| 0 <= i < BRICK_COUNT ==> w.bricks@[i] == initial_brick(i),
    {
        let mut colliders: Vec<Obstacle> = Vec::new();
        colliders.push(
            Obstacle {
                kind: ColliderKind::Paddle,
                rect: Rect { cx: 0, cy: PADDLE_Y, w: PADDLE_W, h: PADDLE_H },
            },
        );
        colliders.push(
            Obstacle {
                kind: ColliderKind::Solid,
                rect: Rect { cx: -480_000, cy: 0, w: WALL_THICKNESS, h: 715_000 },
            },
        );
        colliders.push(
            Obstacle {
                kind: ColliderKind::Solid,
                rect: Rect { cx: 480_000, cy: 0, w: WALL_THICKNESS, h: 715_000 },
            },
        );
        colliders.push(
            Obstacle {
                kind: ColliderKind::Solid,
                rect: Rect { cx: 0, cy: -340_000, w: 995_000, h: WALL_THICKNESS },
            },
        );
        colliders.push(
            Obstacle {
                kind: ColliderKind::Solid,
                rect: Rect { cx: 0, cy: 340_000, w: 995_000, h: WALL_THICKNESS },
            },
        );
        proof {
            assert(colliders@ =~= initial_colliders());
        }
        let mut bricks: Vec<Brick> = Vec::new();
        let mut i: usize = 0;
        while i < 20
            invariant
                i <= 20,
                bricks@.len() == i,
                forall|j: int| 0 <= j < i ==> bricks@[j] == initial_brick(j),
            decreases 20 - i,
        {
            let col = (i % 5) as i64;
            let row = (i / 5) as i64;
            bricks.push(
                Brick {
                    rect: Rect {
                        cx: col * BRICK_STRIDE_X + BRICK_ORIGIN_X,
                        cy: row * BRICK_STRIDE_Y + BRICK_ORIGIN_Y,
                        w: BRICK_W,
                        h: BRICK_H,
                    },
                    velocity: None,
                    rotation: 0,
                    just_bounced: None,
                    alive: true,
                },
            );
            i = i + 1;
        }
        let w = World {
            ball: Ball {
                cx: 0,
                cy: BALL_START_Y,
                size: BALL_SIZE,
                vel: Vel { x: BALL_START_VX, y: BALL_START_VY },
                rotation: 0,
                just_bounced: None,
            },
            paddle: Paddle { x: 0, speed: PADDLE_SPEED, just_bounced: None },
            colliders,
            bricks,
            scoreboard: Scoreboard {
                score: 0,
                remain_bricks: BRICK_COUNT,
                brick_in_row: 1,
                keeping: false,
                just_changed: None,
            },
            bonus: TextBonus { show: None, row: 0 },
        };
        proof {
            assert forall|j: int| 0 <= j < w.bricks@.len() implies scorable(#[trigger] w.bricks@[j])
                && w.bricks@[j].wf() && w.bricks@[j].rect.wf() by {
                assert(w.bricks@[j] == initial_brick(j));
                assert(0 <= j % 5 < 5 && 0 <= j / 5 < 4);
            }
            lemma_scorable_from_all(w.bricks@, 0);
            assert(w.scoreboard.potential() == 0 + 20 * (1 + 20));
            assert forall|j: int| 0 <= j < w.colliders@.len() implies (
            #[trigger] w.colliders@[j]).wf() by {
                assert(w.colliders@ == initial_colliders());
                if j == 0 {
                    assert(w.colliders@[0].wf());
                } else if j == 1 {
                    assert(w.colliders@[1].wf());
                } else if j == 2 {
                    assert(w.colliders@[2].wf());
                } else if j == 3 {
                    assert(w.colliders@[3].wf());
                } else {
                    assert(w.colliders@[4].wf());
                }
            }
        }
        w
    }

    /// One fixed simulation tick, in the scheduler's order: move the
    /// paddle by the pressed keys, recentre its collider, resolve
    /// collisions, move the ball, then run the bricks' bounce-out
    /// animation.  Returns what the paddle hands the renderer.
    pub fn tick(&mut self, left: bool, right: bool) -> (frame: PaddleFrame)
        requires
            old(self).wf(),
            old(self).positions_ok(),
        ensures
            final(self).wf(),
            ({
                let p1 = moved_paddle(old(self).paddle, left, right);
                let cs1 = synced_colliders(old(self).colliders@, p1.x);
                let out = collision_outcome(
                    old(self).scoreboard,
                    old(self).ball,
                    old(self).bonus,
                    cs1,
                    old(self).bricks@,
                );
                let bricks1 = collision_bricks(
                    old(self).scoreboard,
                    old(self).ball,
                    old(self).bonus,
                    cs1,
                    old(self).bricks@,
                );
                &&& final(self).paddle == paddle_after(
                    p1,
                    wall_phase(old(self).scoreboard, old(self).ball, cs1).hit_paddle,
                )
                &&& final(self).colliders@ == cs1
                &&& final(self).scoreboard == scoreboard_after(out)
                &&& final(self).bonus == bonus_after(out)
                &&& final(self).ball == moved_ball(ball_after(old(self).ball, out))
                &&& final(self).bricks@.len() == bricks1.len()
                &&& forall|k: int|
                    0 <= k < bricks1.len() ==> brick_stepped(
                        bricks1[k],
                        #[trigger] final(self).bricks@[k],
                    )
            }),
            frame.left_eye_x == old(self).paddle.x + paddle_step(old(self).paddle, left, right)
                - crate::systems::EYE_DIST,
            frame.right_eye_x == old(self).paddle.x + paddle_step(old(self).paddle, left, right)
                + crate::systems::EYE_DIST,
            frame.eye_scale == eye_scale_of(old(self).paddle.just_bounced),
    {
        let frame = paddle_movement_system(&mut self.paddle, left, right);
        let px = self.paddle.x;
        let ghost cs0 = self.colliders@;
        let ghost mid = *self;
        let n = self.colliders.len();
        let mut i: usize = 0;
        while i < n
            invariant
                i <= n,
                n == self.colliders@.len() == cs0.len(),
                -COORD_LIMIT <= px <= COORD_LIMIT,
                forall|j: int| 0 <= j < n ==> (#[trigger] cs0[j]).wf(),
                forall|j: int| 0 <= j < i ==> self.colliders@[j] == synced_colliders(cs0, px)[j],
                forall|j: int| i <= j < n ==> self.colliders@[j] == cs0[j],
                self.ball == mid.ball,
                self.paddle == mid.paddle,
                self.bricks@ == mid.bricks@,
                self.scoreboard == mid.scoreboard,
                self.bonus == mid.bonus,
            decreases n - i,
        {
            let mut o = self.colliders[i];
            match o.kind {
                ColliderKind::Paddle => {
                    o.rect.cx = px;
                    self.colliders.set(i, o);
                },
                ColliderKind::Solid => {},
            }
            i = i + 1;
        }
        proof {
            assert(self.colliders@ =~= synced_colliders(cs0, px));
            assert(forall|j: int|
                0 <= j < self.colliders@.len() ==> (#[trigger] self.colliders@[j]).wf());
            let start = collision_start(
                old(self).scoreboard,
                old(self).ball,
                old(self).bonus,
                self.colliders@,
            );
            lemma_hit_count_le_scorable(old(self).ball.spec_rect(), old(self).bricks@, 0);
            lemma_brick_scan_remain(old(self).ball.spec_rect(), old(self).bricks@, 0, start);
        }
        ball_collision_system(
            &mut self.scoreboard,
            &mut self.paddle,
            &mut self.ball,
            &mut self.bricks,
            &mut self.bonus,
            &self.colliders,
        );
        ball_movement_system(&mut self.ball);
        let ghost bricks1 = self.bricks@;
        brick_movement_system(&mut self.bricks);
        proof {
            assert(forall|k: int|
                0 <= k < self.bricks@.len() ==> scorable(#[trigger] self.bricks@[k]) == scorable(
                    bricks1[k],
                )) by {
                assert forall|k: int| 0 <= k < self.bricks@.len() implies scorable(
                    #[trigger] self.bricks@[k],
                ) == scorable(bricks1[k]) by {
                    lemma_brick_stepped_scorable(bricks1[k], self.bricks@[k]);
                }
            }
            lemma_scorable_from_congruent(self.bricks@, bricks1, 0);
        }
        frame
    }

    /// One rendered frame of the display systems: the scoreboard flash and
    /// the bonus notice.  Returns what each hands the renderer.
    pub fn frame(&mut self) -> (frames: (ScoreFrame, BonusFrame))
        requires
            old(self).wf(),
        ensures
            final(self).wf(),
            *final(self) == (World {
                scoreboard: flashed_scoreboard(old(self).scoreboard),
                bonus: faded_bonus(old(self).bonus),
                ..*old(self)
            }),
            frames.0 == score_frame_of(old(self).scoreboard),
            frames.1 == bonus_frame_of(old(self).bonus),
    {
        let sf = scoreboard_system(&mut self.scoreboard);
        let bf = bonus_notifier_system(&mut self.bonus);
        (sf, bf)
    }
}

} // verus!
