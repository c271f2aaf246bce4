//! Knockback: a character shocked by a contact is forced along a
//! direction with a speed that follows a cubic impact curve over the
//! shock's duration.

use vstd::prelude::*;
use crate::fixp::div_milli;
use crate::vec2::Vec2m;

verus! {

/// An externally imposed motion: direction (milli-unit vector) and speed
/// (milli-units per second).
#[derive(Clone, Copy, PartialEq, Eq, Structural, Debug)]
pub struct ForcedMove {
    pub direction: Vec2m,
    pub speed: i64,
}

/// A knockback in progress: its strength (milli-scaled) and direction.
#[derive(Clone, Copy, PartialEq, Eq, Structural, Debug)]
pub struct Shocked {
    pub impact: i64,
    pub direction: Vec2m,
}

/// How long a shock lasts, in milliseconds.
pub const SHOCK_DURATION_MS: u64 = 400;

/// The impact curve at `t` milliseconds, milli-scaled: the fixed-point
/// image of the cubic `16.6667 t - 75 t^2 + 83.3333 t^3` over seconds.
pub open spec fn impact_curve_spec(t: int) -> int {
    16667 * t / 1000 - 75 * t * t / 1000 + 83333 * t * t * t / 1000000000
}

/// Evaluate the impact curve at `t` milliseconds.
pub fn impact_curve(t: u64) -> (r: i64)
    requires
        t <= SHOCK_DURATION_MS,
    ensures
        r == impact_curve_spec(t as int),
        -12000 <= r <= 12000,
{
    let ti: i64 = t as i64;
    assert(0 <= 16667 * ti <= 6666800 && 0 <= 75 * ti <= 30000 && 0 <= 75 * ti * ti <= 12000000
        && 0 <= 83333 * ti <= 33333200 && 0 <= 83333 * ti * ti <= 13333280000 && 0 <= 83333 * ti
        * ti * ti <= 5333312000000) by (nonlinear_arith)
        requires
            0 <= ti <= 400,
    ;
    16667 * ti / 1000 - 75 * ti * ti / 1000 + 83333 * ti * ti * ti / 1000000000
}

/// The forced-move speed a shock yields at `t` milliseconds into the
/// shock: impact times the curve value, times a fixed gain of 400.
pub open spec fn shock_speed_spec(impact: int, t: int) -> int {
    div_milli(impact * impact_curve_spec(t)) * 400
}

/// Largest shock impact the configuration admits, milli-scaled.
pub const IMPACT_LIMIT: i64 = 1000000;

pub fn shock_speed(impact: i64, t: u64) -> (r: i64)
    requires
        0 <= impact <= IMPACT_LIMIT,
        t <= SHOCK_DURATION_MS,
    ensures
        r == shock_speed_spec(impact as int, t as int),
        -6000000000000 <= r <= 6000000000000,
{
    let c: i64 = impact_curve(t);
    assert(-12000000000 <= impact * c <= 12000000000) by (nonlinear_arith)
        requires
            0 <= impact <= 1000000,
            -12000 <= c <= 12000,
    ;
    proof {
        crate::fixp::lemma_div_trunc_bound(impact as int * c as int, 1000, 12000000);
    }
    crate::fixp::milli_div(impact * c) * 400
}

} // verus!
