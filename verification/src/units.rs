//! Fixed-point units, the constants of the ecology, and saturating arithmetic.

use vstd::prelude::*;

verus! {

/// Number of fixed-point units in one whole.
pub const UNIT: i64 = 1000;

/// Largest distance at which two agents meet.
pub const INTERACTION_RANGE: i64 = 1500;

/// The customary length of one time step.
pub const DT: i64 = 100;

/// Bound on the offset that one move adds to a coordinate.
pub const DX_MOVE: i64 = 400;

/// Upper end of the domain on both axes; the lower end is zero.
pub const DOMAIN_MAX: i64 = 30000;

/// Age from which a prey may divide.
pub const DIVISION_TIME: i64 = 3000;

/// What a predator gains from one prey.
pub const NUTRIENT_INCREASE: i64 = 170;

/// What a predator loses in one step.
pub const NUTRIENT_DECREASE: i64 = 10;

/// The reserve a predator starts with.
pub const INITIAL_NUTRIENTS: i64 = 400;

/// The chance that is certain; every chance is given in units out of it.
pub const CERTAIN: u32 = 1000;

/// Chance, in units out of `CERTAIN`, that a predator in range devours a
/// prey.
pub const DEVOUR_CHANCE: u32 = 150;

/// Reserve from which a predator divides.
pub const NUTRIENT_DIVISION_THRESHOLD: i64 = 1000;

/// `v` brought into the range of `i64`.
pub open spec fn sat(v: int) -> i64 {
    if v > i64::MAX {
        i64::MAX
    } else if v < i64::MIN {
        i64::MIN
    } else {
        v as i64
    }
}

/// `v` brought into `[lo, hi]`.
pub open spec fn clamp(v: int, lo: int, hi: int) -> int {
    if v < lo {
        lo
    } else if v > hi {
        hi
    } else {
        v
    }
}

/// Half of `n`, rounded toward zero.
pub open spec fn half(n: int) -> int {
    if n >= 0 {
        n / 2
    } else {
        -((-n) / 2)
    }
}

/// Saturating sum of two quantities.
pub fn sat_add(a: i64, b: i64) -> (r: i64)
    ensures
        r == sat(a + b),
{
    if b >= 0 {
        if a > i64::MAX - b {
            i64::MAX
        } else {
            a + b
        }
    } else {
        if a < i64::MIN - b {
            i64::MIN
        } else {
            a + b
        }
    }
}

/// Half of a quantity, rounded toward zero.
pub fn halve(n: i64) -> (r: i64)
    ensures
        r == half(n as int),
{
    n / 2
}

/// A coordinate moved by `d` and pinned to the domain.
pub fn pin(x: i64, d: i64) -> (r: i64)
    ensures
        r == clamp(x + d, 0, DOMAIN_MAX as int),
{
    let s: i64 = sat_add(x, d);
    if s < 0 {
        0
    } else if s > DOMAIN_MAX {
        DOMAIN_MAX
    } else {
        s
    }
}

} // verus!
