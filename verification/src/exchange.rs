//! The exchange between assets and pool units.
//!
//! The ratio is the pool units outstanding for each unit of liquidity. Assets
//! become units by multiplying with it and units become assets by dividing by
//! it, each time dropping toward zero what an atto cannot hold.
use crate::decimal::{
    decimal_max, precise_max, subunits_per_atto, subunits_per_unit, Decimal, PreciseDecimal,
};
use crate::fixed_point::{
    attos_as_subunits, decimal_div_precise, decimal_mul_precise, is_decimal, is_precise,
    precise_checked_div, precise_from_decimal, precise_product, precise_quotient,
    precise_truncate_to_zero, precise_truncated,
};
use vstd::arithmetic::div_mod::{
    lemma_div_denominator, lemma_div_is_ordered, lemma_div_multiples_vanish_quotient,
    lemma_div_pos_is_pos,
};
use vstd::prelude::*;

verus! {

/// The attos of pool units that `assets` attos are worth at `ratio`
/// subunits: their product with the rest dropped, where it fits a decimal.
/// Neither is negative.
pub open spec fn units_for(assets: int, ratio: int) -> Option<int> {
    let units = (assets * ratio) / subunits_per_unit();
    if units <= decimal_max() {
        Some(units)
    } else {
        None
    }
}

/// The attos of assets that `units` attos of pool units are worth at `ratio`
/// subunits: their quotient with the rest dropped, where the ratio is not
/// zero and the quotient fits a decimal. Neither is negative.
pub open spec fn assets_for(units: int, ratio: int) -> Option<int> {
    let assets = (units * subunits_per_unit()) / ratio;
    if ratio != 0 && assets <= decimal_max() {
        Some(assets)
    } else {
        None
    }
}

/// The ratio, in subunits, of `supply` attos of pool units to `liquidity`
/// attos: one where there is no liquidity, else their quotient with the rest
/// dropped, where it fits a precise decimal. Neither is negative.
pub open spec fn unit_ratio(supply: int, liquidity: int) -> Option<int> {
    let ratio = (supply * subunits_per_unit()) / liquidity;
    if liquidity == 0 {
        Some(subunits_per_unit())
    } else if ratio <= precise_max() {
        Some(ratio)
    } else {
        None
    }
}

/// A product of three factors may be taken in another order.
proof fn lemma_regroup(a: int, b: int, c: int)
    ensures
        (a * b) * c == b * (a * c),
{
    assert((a * b) * c == b * (a * c)) by (nonlinear_arith);
}

/// A product of numbers that are not negative is not negative.
proof fn lemma_product_not_negative(a: int, b: int)
    requires
        a >= 0,
        b >= 0,
    ensures
        a * b >= 0,
{
    assert(a * b >= 0) by (nonlinear_arith)
        requires
            a >= 0,
            b >= 0,
    ;
}

/// Multiplying by the ratio and then dropping the decimal places beyond the
/// eighteenth gives [`units_for`].
proof fn lemma_units_for(assets: int, ratio: int)
    requires
        assets >= 0,
        ratio >= 0,
    ensures
        match precise_product(attos_as_subunits(assets), ratio) {
            Some(product) => precise_truncated(product) == units_for(assets, ratio),
            None => units_for(assets, ratio) is None,
        },
        units_for(assets, ratio) matches Some(units) ==> units >= 0,
{
    let k = subunits_per_atto();
    let m = subunits_per_unit();
    let exact = assets * ratio;
    let widened = (assets * k) * ratio;
    lemma_product_not_negative(assets, ratio);
    lemma_regroup(assets, k, ratio);
    assert(widened == k * exact);
    lemma_product_not_negative(k, exact);
    // (widened / m) / k == widened / (m * k) == (k * exact) / (k * m) == exact / m
    lemma_div_denominator(widened, m, k);
    lemma_div_multiples_vanish_quotient(k, exact, m);
    assert(m * k == k * m);
    assert((widened / m) / k == exact / m);
    lemma_div_pos_is_pos(exact, m);
    lemma_div_pos_is_pos(widened, m);
    lemma_div_pos_is_pos(widened / m, k);
    if widened / m > precise_max() {
        // A product beyond the precise range is beyond the decimal range
        // when truncated.
        lemma_div_is_ordered(precise_max() + 1, widened / m, k);
    }
}

/// Dividing by the ratio and then dropping the decimal places beyond the
/// eighteenth gives [`assets_for`].
proof fn lemma_assets_for(units: int, ratio: int)
    requires
        units >= 0,
        ratio >= 0,
    ensures
        match precise_quotient(attos_as_subunits(units), ratio) {
            Some(quotient) => precise_truncated(quotient) == assets_for(units, ratio),
            None => assets_for(units, ratio) is None,
        },
        assets_for(units, ratio) matches Some(assets) ==> assets >= 0,
{
    let k = subunits_per_atto();
    let m = subunits_per_unit();
    if ratio != 0 {
        let exact = units * m;
        let widened = (units * k) * m;
        lemma_product_not_negative(units, m);
        lemma_regroup(units, k, m);
        assert(widened == k * exact);
        lemma_product_not_negative(k, exact);
        // (widened / ratio) / k == widened / (ratio * k) == exact / ratio
        lemma_div_denominator(widened, ratio, k);
        lemma_div_multiples_vanish_quotient(k, exact, ratio);
        assert(ratio * k == k * ratio) by (nonlinear_arith);
        assert((widened / ratio) / k == exact / ratio);
        lemma_div_pos_is_pos(exact, ratio);
        lemma_div_pos_is_pos(widened, ratio);
        lemma_div_pos_is_pos(widened / ratio, k);
        if widened / ratio > precise_max() {
            // A quotient beyond the precise range is beyond the decimal
            // range when truncated.
            lemma_div_is_ordered(precise_max() + 1, widened / ratio, k);
        }
    }
}

/// Dividing the widened supply by the widened liquidity gives
/// [`unit_ratio`].
proof fn lemma_unit_ratio(supply: int, liquidity: int)
    requires
        supply >= 0,
        liquidity > 0,
    ensures
        precise_quotient(attos_as_subunits(supply), attos_as_subunits(liquidity)) == unit_ratio(
            supply,
            liquidity,
        ),
        unit_ratio(supply, liquidity) matches Some(ratio) ==> ratio >= 0,
{
    let k = subunits_per_atto();
    let m = subunits_per_unit();
    let exact = supply * m;
    let widened = (supply * k) * m;
    lemma_product_not_negative(supply, m);
    lemma_regroup(supply, k, m);
    assert(widened == k * exact);
    lemma_product_not_negative(k, exact);
    // (k * exact) / (k * liquidity) == exact / liquidity
    lemma_div_multiples_vanish_quotient(k, exact, liquidity);
    assert(liquidity * k == k * liquidity) by (nonlinear_arith);
    lemma_div_pos_is_pos(exact, liquidity);
    lemma_div_pos_is_pos(widened, liquidity * k);
}

/// The pool units that `assets` are worth at `ratio`; nothing where they do
/// not fit a decimal.
pub(crate) fn units_for_assets(assets: Decimal, ratio: PreciseDecimal) -> (r: Option<Decimal>)
    requires
        assets@ >= 0,
        ratio@ >= 0,
    ensures
        is_decimal(r, units_for(assets@, ratio@)),
        r matches Some(units) ==> units@ >= 0,
{
    proof {
        lemma_units_for(assets@, ratio@);
    }
    match decimal_mul_precise(assets, ratio) {
        Some(product) => precise_truncate_to_zero(product),
        None => None,
    }
}

/// The assets that `units` of pool units are worth at `ratio`; nothing where
/// the ratio is zero or they do not fit a decimal.
pub(crate) fn assets_for_units(units: Decimal, ratio: PreciseDecimal) -> (r: Option<Decimal>)
    requires
        units@ >= 0,
        ratio@ >= 0,
    ensures
        is_decimal(r, assets_for(units@, ratio@)),
        r matches Some(assets) ==> assets@ >= 0,
{
    proof {
        lemma_assets_for(units@, ratio@);
    }
    match decimal_div_precise(units, ratio) {
        Some(quotient) => precise_truncate_to_zero(quotient),
        None => None,
    }
}

/// The ratio of `supply` pool units to `liquidity`: one where there is no
/// liquidity; nothing where the quotient does not fit a precise decimal.
pub(crate) fn ratio_of(supply: Decimal, liquidity: Decimal) -> (r: Option<PreciseDecimal>)
    requires
        supply@ >= 0,
        liquidity@ >= 0,
    ensures
        is_precise(r, unit_ratio(supply@, liquidity@)),
        r matches Some(ratio) ==> ratio@ >= 0,
{
    if liquidity.is_zero() {
        Some(PreciseDecimal::one())
    } else {
        proof {
            lemma_unit_ratio(supply@, liquidity@);
        }
        precise_checked_div(precise_from_decimal(supply), precise_from_decimal(liquidity))
    }
}

} // verus!
