//! Axis-aligned collision primitive.
//!
//! Rectangles are given by their center and full extent, in thousandths of
//! a world unit.  The overlap test works on doubled coordinates
//! (`2 * center ± extent`), which keeps every edge an exact integer.

use vstd::prelude::*;

verus! {

/// Coordinates, extents and velocities are kept within this bound so that
/// the doubled-coordinate arithmetic below stays far from `i64` overflow.
pub const COORD_LIMIT: i64 = 1_000_000_000_000;

/// The side of the obstacle that the ball penetrated.
#[derive(Clone, Copy, Debug, PartialEq, Eq, Structural)]
pub enum Collision {
    Left,
    Right,
    Top,
    Bottom,
}

/// An axis-aligned rectangle: center `(cx, cy)`, full extents `w` and `h`.
#[derive(Clone, Copy, Debug, PartialEq, Eq, Structural)]
pub struct Rect {
    pub cx: i64,
    pub cy: i64,
    pub w: i64,
    pub h: i64,
}

impl Rect {
    pub open spec fn wf(self) -> bool {
        &&& 0 <= self.w <= COORD_LIMIT
        &&& 0 <= self.h <= COORD_LIMIT
        &&& -COORD_LIMIT <= self.cx <= COORD_LIMIT
        &&& -COORD_LIMIT <= self.cy <= COORD_LIMIT
    }

    /// Left edge, doubled.
    pub open spec fn lo_x(self) -> int {
        2 * self.cx - self.w
    }

    /// Right edge, doubled.
    pub open spec fn hi_x(self) -> int {
        2 * self.cx + self.w
    }

    /// Bottom edge, doubled.
    pub open spec fn lo_y(self) -> int {
        2 * self.cy - self.h
    }

    /// Top edge, doubled.
    pub open spec fn hi_y(self) -> int {
        2 * self.cy + self.h
    }
}

/// The two rectangles share interior points.
pub open spec fn overlap(a: Rect, b: Rect) -> bool {
    &&& a.lo_x() < b.hi_x()
    &&& a.hi_x() > b.lo_x()
    &&& a.lo_y() < b.hi_y()
    &&& a.hi_y() > b.lo_y()
}

/// Classification on the horizontal axis: `Left` when the ball crosses the
/// obstacle's left edge from outside, `Right` for the right edge, `None`
/// when the ball spans the obstacle or sits inside it on this axis.
pub open spec fn x_class(a: Rect, b: Rect) -> Option<Collision> {
    if a.lo_x() < b.lo_x() && a.hi_x() > b.lo_x() && a.hi_x() < b.hi_x() {
        Some(Collision::Left)
    } else if a.lo_x() > b.lo_x() && a.lo_x() < b.hi_x() && a.hi_x() > b.hi_x() {
        Some(Collision::Right)
    } else {
        None
    }
}

/// Penetration depth on the horizontal axis (doubled), positive in the
/// cases classified by `x_class`.
pub open spec fn x_depth(a: Rect, b: Rect) -> int {
    if a.lo_x() < b.lo_x() {
        a.hi_x() - b.lo_x()
    } else {
        b.hi_x() - a.lo_x()
    }
}

/// Classification on the vertical axis: `Bottom` when the ball crosses the
/// obstacle's bottom edge from outside, `Top` for the top edge.
pub open spec fn y_class(a: Rect, b: Rect) -> Option<Collision> {
    if a.lo_y() < b.lo_y() && a.hi_y() > b.lo_y() && a.hi_y() < b.hi_y() {
        Some(Collision::Bottom)
    } else if a.lo_y() > b.lo_y() && a.lo_y() < b.hi_y() && a.hi_y() > b.hi_y() {
        Some(Collision::Top)
    } else {
        None
    }
}

/// Penetration depth on the vertical axis (doubled).
pub open spec fn y_depth(a: Rect, b: Rect) -> int {
    if a.lo_y() < b.lo_y() {
        a.hi_y() - b.lo_y()
    } else {
        b.hi_y() - a.lo_y()
    }
}

/// The side of obstacle `b` penetrated by ball `a`: none when disjoint,
/// otherwise the classified side of the axis with the smaller penetration
/// depth (the horizontal side on ties, and whichever axis classifies when
/// the other spans or contains).
pub open spec fn collision_side(a: Rect, b: Rect) -> Option<Collision> {
    if !overlap(a, b) {
        None
    } else {
        match (x_class(a, b), y_class(a, b)) {
            (Some(xs), Some(ys)) => if y_depth(a, b) < x_depth(a, b) {
                Some(ys)
            } else {
                Some(xs)
            },
            (Some(xs), None) => Some(xs),
            (None, Some(ys)) => Some(ys),
            (None, None) => None,
        }
    }
}

/// Overlap test and side report for ball `a` against obstacle `b`.
pub fn collide(a: &Rect, b: &Rect) -> (r: Option<Collision>)
    requires
        a.wf(),
        b.wf(),
    ensures
        r == collision_side(*a, *b),
{
    let a_lo_x: i64 = 2 * a.cx - a.w;
    let a_hi_x: i64 = 2 * a.cx + a.w;
    let a_lo_y: i64 = 2 * a.cy - a.h;
    let a_hi_y: i64 = 2 * a.cy + a.h;
    let b_lo_x: i64 = 2 * b.cx - b.w;
    let b_hi_x: i64 = 2 * b.cx + b.w;
    let b_lo_y: i64 = 2 * b.cy - b.h;
    let b_hi_y: i64 = 2 * b.cy + b.h;
    if a_lo_x < b_hi_x && a_hi_x > b_lo_x && a_lo_y < b_hi_y && a_hi_y > b_lo_y {
        let on_x: Option<Collision>;
        let pen_x: i64;
        if a_lo_x < b_lo_x && a_hi_x > b_lo_x && a_hi_x < b_hi_x {
            on_x = Some(Collision::Left);
            pen_x = a_hi_x - b_lo_x;
        } else if a_lo_x > b_lo_x && a_lo_x < b_hi_x && a_hi_x > b_hi_x {
            on_x = Some(Collision::Right);
            pen_x = b_hi_x - a_lo_x;
        } else {
            on_x = None;
            pen_x = 0;
        }
        let on_y: Option<Collision>;
        let pen_y: i64;
        if a_lo_y < b_lo_y && a_hi_y > b_lo_y && a_hi_y < b_hi_y {
            on_y = Some(Collision::Bottom);
            pen_y = a_hi_y - b_lo_y;
        } else if a_lo_y > b_lo_y && a_lo_y < b_hi_y && a_hi_y > b_hi_y {
            on_y = Some(Collision::Top);
            pen_y = b_hi_y - a_lo_y;
        } else {
            on_y = None;
            pen_y = 0;
        }
        match (on_x, on_y) {
            (Some(xs), Some(ys)) => if pen_y < pen_x {
                Some(ys)
            } else {
                Some(xs)
            },
            (Some(xs), None) => Some(xs),
            (None, Some(ys)) => Some(ys),
            (None, None) => None,
        }
    } else {
        None
    }
}

/// Law: no side is reported for disjoint rectangles, a reported side was
/// classified on its own axis, and it lies on the axis of minimum
/// penetration whenever both axes classify (the horizontal axis wins
/// ties).
pub proof fn lemma_side_is_min_penetration(a: Rect, b: Rect)
    ensures
        !overlap(a, b) ==> collision_side(a, b) is None,
        collision_side(a, b) is Some ==> overlap(a, b),
        collision_side(a, b) == Some(Collision::Left) || collision_side(a, b) == Some(
            Collision::Right,
        ) ==> {
            &&& x_class(a, b) == collision_side(a, b)
            &&& x_depth(a, b) > 0
            &&& y_class(a, b) is Some ==> x_depth(a, b) <= y_depth(a, b)
        },
        collision_side(a, b) == Some(Collision::Top) || collision_side(a, b) == Some(
            Collision::Bottom,
        ) ==> {
            &&& y_class(a, b) == collision_side(a, b)
            &&& y_depth(a, b) > 0
            &&& x_class(a, b) is Some ==> y_depth(a, b) < x_depth(a, b)
        },
{
}

} // verus!
