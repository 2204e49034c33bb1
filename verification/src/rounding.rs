//! Rounding of an amount to a resource's smallest unit.
use vstd::arithmetic::div_mod::{
    lemma_div_pos_is_pos, lemma_fundamental_div_mod, lemma_mod_bound, lemma_mod_multiples_basic,
};
use vstd::arithmetic::mul::{lemma_mul_is_commutative, lemma_mul_nonnegative};
use vstd::arithmetic::power::pow;
use vstd::prelude::*;

verus! {

/// Where a number goes that lies between two multiples of a step.
#[derive(Clone, Copy, Debug, PartialEq, Eq, Structural)]
pub enum RoundingMode {
    /// Up, toward positive infinity.
    ToPositiveInfinity,
    /// Down, toward negative infinity.
    ToNegativeInfinity,
    /// Toward zero.
    ToZero,
    /// Away from zero.
    AwayFromZero,
    /// To the nearer multiple; from the midpoint toward zero.
    ToNearestMidpointTowardZero,
    /// To the nearer multiple; from the midpoint away from zero.
    ToNearestMidpointAwayFromZero,
    /// To the nearer multiple; from the midpoint to the even multiple.
    ToNearestMidpointToEven,
}

/// What a withdrawal does with an amount that the resource cannot represent.
#[derive(Clone, Copy, Debug, PartialEq, Eq, Structural)]
pub enum WithdrawStrategy {
    /// The amount is taken as it is, and refused if the resource cannot represent it.
    Exact,
    /// The amount is first rounded to the resource's smallest unit.
    Rounded(RoundingMode),
}

/// Attos in the smallest unit of a resource with `divisibility` decimal places.
pub open spec fn unit_step(divisibility: u8) -> int {
    pow(10, (18 - divisibility) as nat)
}

/// Whether `x` attos are a whole number of steps.
pub open spec fn is_multiple(x: int, step: int) -> bool {
    x % step == 0
}

/// `x` rounded to a multiple of `step` (`step > 0`) as `mode` says.
pub open spec fn round_to_step(x: int, step: int, mode: RoundingMode) -> int {
    let lower = (x / step) * step;
    let upper = lower + step;
    let twice_rest = 2 * (x - lower);
    if x == lower {
        x
    } else {
        match mode {
            RoundingMode::ToPositiveInfinity => upper,
            RoundingMode::ToNegativeInfinity => lower,
            RoundingMode::ToZero => if x > 0 { lower } else { upper },
            RoundingMode::AwayFromZero => if x > 0 { upper } else { lower },
            RoundingMode::ToNearestMidpointTowardZero => if twice_rest < step {
                lower
            } else if twice_rest > step {
                upper
            } else if x > 0 {
                lower
            } else {
                upper
            },
            RoundingMode::ToNearestMidpointAwayFromZero => if twice_rest < step {
                lower
            } else if twice_rest > step {
                upper
            } else if x > 0 {
                upper
            } else {
                lower
            },
            RoundingMode::ToNearestMidpointToEven => if twice_rest < step {
                lower
            } else if twice_rest > step {
                upper
            } else if lower % (2 * step) == 0 {
                lower
            } else {
                upper
            },
        }
    }
}

/// The amount that a withdrawal of `x` attos asks of a resource with smallest
/// unit `step`.
pub open spec fn withdrawal_amount(x: int, step: int, strategy: WithdrawStrategy) -> int {
    match strategy {
        WithdrawStrategy::Exact => x,
        WithdrawStrategy::Rounded(mode) => round_to_step(x, step, mode),
    }
}

/// Rounding an amount that is not negative toward zero gives the largest
/// whole number of steps within it: it loses less than one step, and nothing
/// of an amount that already is a whole number of steps.
pub proof fn lemma_round_toward_zero(x: int, step: int)
    requires
        x >= 0,
        step >= 1,
    ensures
        0 <= round_to_step(x, step, RoundingMode::ToZero) <= x,
        x - round_to_step(x, step, RoundingMode::ToZero) < step,
        is_multiple(round_to_step(x, step, RoundingMode::ToZero), step),
        is_multiple(x, step) ==> round_to_step(x, step, RoundingMode::ToZero) == x,
{
    // x == step * (x / step) + x % step, and 0 <= x % step < step
    lemma_fundamental_div_mod(x, step);
    lemma_mod_bound(x, step);
    lemma_mul_is_commutative(step, x / step);
    lemma_mod_multiples_basic(x / step, step);
    lemma_div_pos_is_pos(x, step);
    lemma_mul_nonnegative(x / step, step);
}

} // verus!
