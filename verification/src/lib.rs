//! Core logic of a Breakout-style arcade game: an axis-aligned collision
//! primitive, the paddle/ball/brick entities with their decaying bounce
//! timers, and the per-tick systems that move the entities, resolve
//! collisions and keep the score.
//!
//! All coordinates, sizes and velocities are fixed-point integers counting
//! thousandths of a world unit, so that the whole state machine can be
//! stated and proved over plain integer arithmetic.

use vstd::prelude::*;

pub mod anim;
pub mod collision;
pub mod entities;
pub mod geom;
pub mod laws;
mod rng;
pub mod systems;
pub mod world;

verus! {

pub use crate::geom::Collision;

} // verus!
