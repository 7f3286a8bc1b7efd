//! Fixed-point scalars.
//!
//! Every scalar quantity of the learner (rewards, action values, the
//! learning and discount rates, epsilon) is an `i64` counting thousandths:
//! the value `1` is stored as `1000`. Division by the scale rounds toward
//! negative infinity, which matches the mathematical integer division used
//! in the contracts.

use vstd::prelude::*;
use vstd::arithmetic::div_mod::{lemma_fundamental_div_mod, lemma_fundamental_div_mod_converse};

verus! {

/// The fixed-point scale: the scalar `1` is stored as `FIXED_ONE`.
pub const FIXED_ONE: i64 = 1000;

/// Largest magnitude allowed for one configured tile reward or revisit
/// penalty (one million, in whole units).
pub const REWARD_MAGNITUDE_LIMIT: i64 = 1_000_000_000;

/// Largest magnitude a single step's reward can reach: a tile reward plus a
/// revisit penalty.
pub const STEP_REWARD_LIMIT: i64 = 2_000_000_000;

/// Action values are kept within this magnitude; the value update clamps at
/// it, as the library's explicit guardrail against numerical divergence.
pub const Q_VALUE_LIMIT: i64 = 1_000_000_000_000;

/// Largest magnitude [`div_fixed`] accepts; every product formed by the
/// value update stays far below it.
pub const DIV_FIXED_INPUT_LIMIT: i64 = 4_000_000_000_000_000;

/// `v` clamped to the action-value range.
pub open spec fn spec_clamp(v: int) -> int {
    if v < -Q_VALUE_LIMIT {
        -Q_VALUE_LIMIT as int
    } else if v > Q_VALUE_LIMIT {
        Q_VALUE_LIMIT as int
    } else {
        v
    }
}

/// Divides a scaled product back down by the fixed-point scale, rounding
/// toward negative infinity.
pub fn div_fixed(a: i64) -> (r: i64)
    requires
        -DIV_FIXED_INPUT_LIMIT <= a <= DIV_FIXED_INPUT_LIMIT,
    ensures
        r == a as int / FIXED_ONE as int,
{
    if a >= 0 {
        let q = (a as u64) / (FIXED_ONE as u64);
        q as i64
    } else {
        let m = (-a) as u64;
        let d = m / (FIXED_ONE as u64);
        let rem = m % (FIXED_ONE as u64);
        proof {
            lemma_fundamental_div_mod(m as int, FIXED_ONE as int);
            if rem == 0 {
                lemma_fundamental_div_mod_converse(
                    a as int, FIXED_ONE as int, -(d as int), 0,
                );
            } else {
                lemma_fundamental_div_mod_converse(
                    a as int, FIXED_ONE as int, -(d as int) - 1, FIXED_ONE - rem,
                );
            }
        }
        if rem == 0 {
            -(d as i64)
        } else {
            -(d as i64) - 1
        }
    }
}

/// Clamps `v` to the action-value range.
pub fn clamp_value(v: i64) -> (r: i64)
    ensures
        r == spec_clamp(v as int),
{
    if v < -Q_VALUE_LIMIT {
        -Q_VALUE_LIMIT
    } else if v > Q_VALUE_LIMIT {
        Q_VALUE_LIMIT
    } else {
        v
    }
}

} // verus!
