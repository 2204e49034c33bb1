//! Fixed-point arithmetic, carried out by `scrypto`'s decimal types.
//!
//! The spec functions say over the integers what an operation gives; the
//! executable functions below them hand the digits to `scrypto` and take the
//! result's digits back. Their contracts are taken on trust from `scrypto`'s
//! source and are not proved here.
use crate::decimal::{
    decimal_max, decimal_min, precise_max, subunits_per_atto, subunits_per_unit, Decimal,
    PreciseDecimal,
};
use crate::rounding::{is_multiple, round_to_step, unit_step, RoundingMode};
use scrypto::math::{CheckedAdd, CheckedDiv, CheckedMul, CheckedSub, CheckedTruncate};
use vstd::prelude::*;

verus! {

/// The quotient of `a` by `b` (`b != 0`), rounded toward zero.
pub open spec fn trunc_div(a: int, b: int) -> int {
    if b > 0 {
        if a >= 0 {
            a / b
        } else {
            -((-a) / b)
        }
    } else {
        if a >= 0 {
            -(a / (-b))
        } else {
            (-a) / (-b)
        }
    }
}

/// Whether `v` attos fit a [`Decimal`].
pub open spec fn in_decimal_range(v: int) -> bool {
    decimal_min() <= v <= decimal_max()
}

/// Whether a wider intermediate of `v` attos narrows to a [`Decimal`]: the
/// narrowing goes by magnitude and so leaves out the most negative value.
pub open spec fn narrows_to_decimal(v: int) -> bool {
    -decimal_max() <= v <= decimal_max()
}

/// Whether a wider intermediate of `v` subunits narrows to a
/// [`PreciseDecimal`]: by magnitude, as for [`narrows_to_decimal`].
pub open spec fn narrows_to_precise(v: int) -> bool {
    -precise_max() <= v <= precise_max()
}

/// The sum of two [`Decimal`]s, where it fits.
pub open spec fn decimal_sum(a: int, b: int) -> Option<int> {
    if in_decimal_range(a + b) {
        Some(a + b)
    } else {
        None
    }
}

/// The difference of two [`Decimal`]s, where it fits.
pub open spec fn decimal_difference(a: int, b: int) -> Option<int> {
    if in_decimal_range(a - b) {
        Some(a - b)
    } else {
        None
    }
}

/// `x` attos rounded to `places` decimal places, where the result fits.
pub open spec fn decimal_rounded(x: int, places: u8, mode: RoundingMode) -> Option<int> {
    let rounded = round_to_step(x, unit_step(places), mode);
    if in_decimal_range(rounded) {
        Some(rounded)
    } else {
        None
    }
}

/// The subunits of a [`PreciseDecimal`] equal to `a` attos.
pub open spec fn attos_as_subunits(a: int) -> int {
    a * subunits_per_atto()
}

/// The product of two [`PreciseDecimal`]s of `x` and `y` subunits, rounded
/// toward zero, where it fits.
pub open spec fn precise_product(x: int, y: int) -> Option<int> {
    let product = trunc_div(x * y, subunits_per_unit());
    if narrows_to_precise(product) {
        Some(product)
    } else {
        None
    }
}

/// The quotient of two [`PreciseDecimal`]s of `x` and `y` subunits, rounded
/// toward zero, where `y` is not zero and it fits.
pub open spec fn precise_quotient(x: int, y: int) -> Option<int> {
    let quotient = trunc_div(x * subunits_per_unit(), y);
    if y != 0 && narrows_to_precise(quotient) {
        Some(quotient)
    } else {
        None
    }
}

/// The attos of `x` subunits, the rest dropped toward zero, where they fit.
pub open spec fn precise_truncated(x: int) -> Option<int> {
    let attos = trunc_div(x, subunits_per_atto());
    if narrows_to_decimal(attos) {
        Some(attos)
    } else {
        None
    }
}

/// Whether `got` is the [`Decimal`] of `expected` attos, or nothing where
/// `expected` is nothing.
pub open spec fn is_decimal(got: Option<Decimal>, expected: Option<int>) -> bool {
    match expected {
        Some(v) => got matches Some(d) && d@ == v,
        None => got is None,
    }
}

/// Whether `got` is the [`PreciseDecimal`] of `expected` subunits, or nothing
/// where `expected` is nothing.
pub open spec fn is_precise(got: Option<PreciseDecimal>, expected: Option<int>) -> bool {
    match expected {
        Some(v) => got matches Some(p) && p@ == v,
        None => got is None,
    }
}

/// Calls `scrypto`'s `Decimal::checked_add`: the sum of two 192-bit integers,
/// or nothing where it leaves the 192-bit range.
#[verifier::external_body]
pub(crate) fn decimal_checked_add(a: Decimal, b: Decimal) -> (r: Option<Decimal>)
    ensures
        is_decimal(r, decimal_sum(a@, b@)),
{
    let x = scrypto::math::Decimal::from_attos(scrypto::math::I192::from_digits(a.digits));
    let y = scrypto::math::Decimal::from_attos(scrypto::math::I192::from_digits(b.digits));
    match x.checked_add(y) {
        Some(z) => Some(Decimal { digits: z.attos().to_digits() }),
        None => None,
    }
}

/// Calls `scrypto`'s `Decimal::checked_sub`: the difference of two 192-bit
/// integers, or nothing where it leaves the 192-bit range.
#[verifier::external_body]
pub(crate) fn decimal_checked_sub(a: Decimal, b: Decimal) -> (r: Option<Decimal>)
    ensures
        is_decimal(r, decimal_difference(a@, b@)),
{
    let x = scrypto::math::Decimal::from_attos(scrypto::math::I192::from_digits(a.digits));
    let y = scrypto::math::Decimal::from_attos(scrypto::math::I192::from_digits(b.digits));
    match x.checked_sub(y) {
        Some(z) => Some(Decimal { digits: z.attos().to_digits() }),
        None => None,
    }
}

/// Calls `scrypto`'s `Decimal::checked_round`, which stops on more than
/// eighteen decimal places: the value itself where it already is a multiple
/// of `10^(18 - places)` attos, else the neighbouring multiple that the mode
/// names, or nothing where that multiple leaves the 192-bit range.
#[verifier::external_body]
pub(crate) fn decimal_checked_round(a: Decimal, places: u8, mode: RoundingMode) -> (r: Option<
    Decimal,
>)
    requires
        places <= 18,
    ensures
        is_decimal(r, decimal_rounded(a@, places, mode)),
{
    let x = scrypto::math::Decimal::from_attos(scrypto::math::I192::from_digits(a.digits));
    let m = match mode {
        RoundingMode::ToPositiveInfinity => scrypto::math::RoundingMode::ToPositiveInfinity,
        RoundingMode::ToNegativeInfinity => scrypto::math::RoundingMode::ToNegativeInfinity,
        RoundingMode::ToZero => scrypto::math::RoundingMode::ToZero,
        RoundingMode::AwayFromZero => scrypto::math::RoundingMode::AwayFromZero,
        RoundingMode::ToNearestMidpointTowardZero => scrypto::math::RoundingMode::ToNearestMidpointTowardZero,
        RoundingMode::ToNearestMidpointAwayFromZero => scrypto::math::RoundingMode::ToNearestMidpointAwayFromZero,
        RoundingMode::ToNearestMidpointToEven => scrypto::math::RoundingMode::ToNearestMidpointToEven,
    };
    match x.checked_round(places, m) {
        Some(z) => Some(Decimal { digits: z.attos().to_digits() }),
        None => None,
    }
}

/// Calls `scrypto`'s `PreciseDecimal::from` on a `Decimal`: the same number
/// with eighteen more decimal places, which always fits.
#[verifier::external_body]
pub(crate) fn precise_from_decimal(a: Decimal) -> (r: PreciseDecimal)
    ensures
        r@ == attos_as_subunits(a@),
{
    let x = scrypto::math::Decimal::from_attos(scrypto::math::I192::from_digits(a.digits));
    let p = scrypto::math::PreciseDecimal::from(x);
    PreciseDecimal { digits: p.precise_subunits().to_digits() }
}

/// Calls `scrypto`'s `checked_mul` of a `Decimal` by a `PreciseDecimal`: the
/// `Decimal` is widened, the product is taken exactly and divided by `10^36`
/// toward zero, and nothing comes back where the magnitude of the result
/// does not fit 255 bits.
#[verifier::external_body]
pub(crate) fn decimal_mul_precise(a: Decimal, b: PreciseDecimal) -> (r: Option<PreciseDecimal>)
    ensures
        is_precise(r, precise_product(attos_as_subunits(a@), b@)),
{
    let x = scrypto::math::Decimal::from_attos(scrypto::math::I192::from_digits(a.digits));
    let y = scrypto::math::PreciseDecimal::from_precise_subunits(
        scrypto::math::I256::from_digits(b.digits),
    );
    match x.checked_mul(y) {
        Some(z) => Some(PreciseDecimal { digits: z.precise_subunits().to_digits() }),
        None => None,
    }
}

/// Calls `scrypto`'s `checked_div` of a `Decimal` by a `PreciseDecimal`: the
/// `Decimal` is widened and multiplied by `10^36` exactly, then divided
/// toward zero, and nothing comes back where the divisor is zero or the
/// magnitude of the result does not fit 255 bits.
#[verifier::external_body]
pub(crate) fn decimal_div_precise(a: Decimal, b: PreciseDecimal) -> (r: Option<PreciseDecimal>)
    ensures
        is_precise(r, precise_quotient(attos_as_subunits(a@), b@)),
{
    let x = scrypto::math::Decimal::from_attos(scrypto::math::I192::from_digits(a.digits));
    let y = scrypto::math::PreciseDecimal::from_precise_subunits(
        scrypto::math::I256::from_digits(b.digits),
    );
    match x.checked_div(y) {
        Some(z) => Some(PreciseDecimal { digits: z.precise_subunits().to_digits() }),
        None => None,
    }
}

/// Calls `scrypto`'s `PreciseDecimal::checked_div`: the dividend times
/// `10^36`, divided toward zero, or nothing where the divisor is zero or the
/// magnitude of the result does not fit 255 bits.
#[verifier::external_body]
pub(crate) fn precise_checked_div(a: PreciseDecimal, b: PreciseDecimal) -> (r: Option<
    PreciseDecimal,
>)
    ensures
        is_precise(r, precise_quotient(a@, b@)),
{
    let x = scrypto::math::PreciseDecimal::from_precise_subunits(
        scrypto::math::I256::from_digits(a.digits),
    );
    let y = scrypto::math::PreciseDecimal::from_precise_subunits(
        scrypto::math::I256::from_digits(b.digits),
    );
    match x.checked_div(y) {
        Some(z) => Some(PreciseDecimal { digits: z.precise_subunits().to_digits() }),
        None => None,
    }
}

/// Calls `scrypto`'s `PreciseDecimal::checked_truncate` with rounding toward
/// zero: the subunits divided by `10^18` toward zero, or nothing where the
/// magnitude of the result does not fit 191 bits.
#[verifier::external_body]
pub(crate) fn precise_truncate_to_zero(a: PreciseDecimal) -> (r: Option<Decimal>)
    ensures
        is_decimal(r, precise_truncated(a@)),
{
    let x = scrypto::math::PreciseDecimal::from_precise_subunits(
        scrypto::math::I256::from_digits(a.digits),
    );
    match x.checked_truncate(scrypto::math::RoundingMode::ToZero) {
        Some(z) => Some(Decimal { digits: z.attos().to_digits() }),
        None => None,
    }
}

/// Calls `scrypto`'s `check_fungible_amount`, which subtracts the
/// divisibility from eighteen: whether the amount is not negative and a
/// whole number of the resource's smallest units.
#[verifier::external_body]
pub(crate) fn is_fungible_amount(a: Decimal, divisibility: u8) -> (r: bool)
    requires
        divisibility <= 18,
    ensures
        r == (a@ >= 0 && is_multiple(a@, unit_step(divisibility))),
{
    let x = scrypto::math::Decimal::from_attos(scrypto::math::I192::from_digits(a.digits));
    scrypto::blueprints::resource::check_fungible_amount(&x, divisibility)
}

} // verus!
