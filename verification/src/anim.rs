//! Decaying bounce timers.
//!
//! Ball, paddle, bricks, the bonus notice and the scoreboard all carry an
//! optional animation value in thousandths: while it stays above a
//! threshold it shrinks by a fixed multiplicative factor each step, and at
//! or below the threshold it clears.  One operation serves them all.

use vstd::prelude::*;

verus! {

/// The value of a bounce timer after one decay step: scaled by
/// `num / den` (integer floor) while above `threshold`, cleared otherwise.
pub open spec fn decayed(t: Option<u32>, num: u32, den: u32, threshold: u32) -> Option<u32>
    recommends
        0 < num <= den,
{
    match t {
        None => None,
        Some(v) => if v > threshold {
            Some((v * num / (den as int)) as u32)
        } else {
            None
        },
    }
}

/// One decay-and-clear step of a bounce timer.  Returns whether the timer
/// expired on this step (it was running and has now cleared).
pub fn decay(t: &mut Option<u32>, num: u32, den: u32, threshold: u32) -> (expired: bool)
    requires
        0 < num <= den,
    ensures
        *final(t) == decayed(*old(t), num, den, threshold),
        expired == (*old(t) is Some && *final(t) is None),
        *final(t) matches Some(v1) ==> (*old(t) matches Some(v0) && v1 <= v0),
{
    match *t {
        None => false,
        Some(v) => {
            if v > threshold {
                assert((v as int) * (num as int) / (den as int) <= v as int) by (nonlinear_arith)
                    requires
                        0 < num <= den,
                        0 <= v,
                ;
                assert((v as int) * (num as int) <= 0xffff_ffff * 0xffff_ffff) by (nonlinear_arith)
                    requires
                        0 <= v <= 0xffff_ffff,
                        0 <= num <= 0xffff_ffff,
                ;
                let shrunk: u32 = ((v as u64) * (num as u64) / (den as u64)) as u32;
                *t = Some(shrunk);
                false
            } else {
                *t = None;
                true
            }
        },
    }
}

} // verus!
