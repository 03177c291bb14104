//! Small arithmetic helpers shared by the pipeline: guarded division and
//! the historic decimal-exponent factor.

use vstd::prelude::*;
use crate::dec::{pow10_spec, Dec, COMPONENT_BOUND};

verus! {

/// The quotient `amount0 / amount1`, defined as zero when `amount1` is
/// zero (aggregation stays total); `None` only when the exact quotient
/// cannot be represented.
pub fn safe_div(amount0: &Dec, amount1: &Dec) -> (r: Option<Dec>)
    requires
        amount0.wf(),
        amount1.wf(),
    ensures
        r == amount0.spec_div(*amount1),
        amount1.is_zero_spec() ==> r == Some(Dec { num: 0, den: 1 }),
{
    amount0.div(*amount1)
}

/// The exponent of the historic decimal-scaling helper: one less than the
/// decimal count, except that zero and one both give exponent zero.
pub open spec fn legacy_exponent(decimals: u64) -> nat {
    if decimals == 0 {
        0
    } else {
        (decimals - 1) as nat
    }
}

/// The scaling factor `10^(decimals - 1)` (and `1` for zero or one
/// decimals). The off-by-one is historic and deliberately kept: callers
/// divide by this factor and compensate elsewhere. `None` when the factor
/// leaves the representable range (decimals of twenty or more).
pub fn exponent_to_big_decimal(decimals: u64) -> (r: Option<Dec>)
    ensures
        match r {
            Some(d) => d.wf() && d.den == 1 && d.num == pow10_spec(legacy_exponent(decimals)),
            None => pow10_spec(legacy_exponent(decimals)) >= COMPONENT_BOUND,
        },
{
    let mut result: i128 = 1;
    let mut i: u64 = 1;
    while i < decimals
        invariant
            1 <= i <= if decimals == 0 {
                1
            } else {
                decimals
            },
            result == pow10_spec((i - 1) as nat),
            1 <= result < COMPONENT_BOUND,
        decreases decimals - i,
    {
        if result > (COMPONENT_BOUND - 1) / 10 {
            proof {
                crate::dec::lemma_pow10_increases(i as nat, legacy_exponent(decimals));
                crate::dec::lemma_pow10_pos((i - 1) as nat);
            }
            return None;
        }
        result = result * 10;
        i = i + 1;
    }
    Some(Dec { num: result, den: 1 })
}

} // verus!
