//! What holds of the pool's operations taken together.
//!
//! The laws speak of [`PoolView`], the value that the executable operations
//! are held to by their contracts.
use crate::decimal::{decimal_max, precise_max, subunits_per_unit};
use crate::error::PoolError;
use crate::exchange::{assets_for, units_for};
use crate::manager::{lemma_every_amount_is_whole_attos, ReceiptView};
use crate::pool::{DepositType, PoolView, WithdrawType};
use crate::resource::{
    lemma_multiples_add_sub, lemma_unit_step_positive, names_fungible, Fungible,
};
use crate::rounding::{
    is_multiple, lemma_round_toward_zero, unit_step, RoundingMode, WithdrawStrategy,
};
use vstd::arithmetic::div_mod::{
    lemma_div_is_ordered, lemma_div_multiples_vanish, lemma_div_pos_is_pos,
    lemma_fundamental_div_mod, lemma_mod_bound, lemma_small_mod,
};
use vstd::arithmetic::mul::{
    lemma_mul_inequality, lemma_mul_is_commutative, lemma_mul_is_distributive_sub,
    lemma_mul_nonnegative,
};
use vstd::prelude::*;

verus! {

/// The units that assets are worth, and the assets that units are worth, are
/// never negative.
pub proof fn lemma_worth_not_negative(amount: int, ratio: int)
    requires
        amount >= 0,
        ratio >= 0,
    ensures
        units_for(amount, ratio) matches Some(units) ==> units >= 0,
        assets_for(amount, ratio) matches Some(assets) ==> assets >= 0,
{
    lemma_mul_nonnegative(amount, ratio);
    lemma_div_pos_is_pos(amount * ratio, subunits_per_unit());
    lemma_mul_nonnegative(amount, subunits_per_unit());
    if ratio > 0 {
        lemma_div_pos_is_pos(amount * subunits_per_unit(), ratio);
    }
}

/// A new pool is well formed and holds nothing, and its ratio is one, as it
/// is when computed anew.
pub proof fn lemma_fresh_pool(
    asset: Seq<u8>,
    divisibility: u8,
    unit_resource: Seq<u8>,
    receipt_resource: Seq<u8>,
)
    requires
        names_fungible(asset),
        divisibility <= 18,
        names_fungible(unit_resource),
        !names_fungible(receipt_resource),
    ensures
        ({
            let pool = PoolView::fresh(asset, divisibility, unit_resource, receipt_resource);
            &&& pool.wf()
            &&& pool.total_liquidity() == 0
            &&& pool.pool_units.amount == 0
            &&& pool.ratio == subunits_per_unit()
            &&& pool.recomputed_ratio() == Some(pool.ratio)
        }),
{
    lemma_unit_step_positive(divisibility);
    lemma_small_mod(0, unit_step(divisibility) as nat);
    lemma_every_amount_is_whole_attos(0);
}

/// A ratio computed anew is never negative, and it is one where the pool
/// has no liquidity, in custody or lent out.
pub proof fn lemma_recomputed_ratio(pool: PoolView)
    requires
        pool.wf(),
    ensures
        pool.recomputed_ratio() matches Some(ratio) ==> 0 <= ratio <= precise_max(),
        pool.total_liquidity() == 0 ==> pool.recomputed_ratio() == Some(subunits_per_unit()),
        pool.recomputed() matches Ok(after) ==> after.wf(),
{
    let total = pool.total_liquidity();
    if total > 0 {
        lemma_mul_nonnegative(pool.pool_units.amount, subunits_per_unit());
        lemma_div_pos_is_pos(pool.pool_units.amount * subunits_per_unit(), total);
    }
}

/// A contribution that succeeds leaves a well-formed pool and well-formed
/// units.
pub proof fn lemma_contribute_keeps_wf(pool: PoolView, assets: Fungible)
    requires
        pool.wf(),
        assets.wf(),
    ensures
        pool.contribute(assets) matches Ok(out) ==> out.0.wf() && out.1.wf(),
{
    if let Ok(out) = pool.contribute(assets) {
        lemma_worth_not_negative(assets.amount, pool.ratio);
        lemma_unit_step_positive(pool.liquidity.divisibility);
        lemma_multiples_add_sub(
            pool.liquidity.amount,
            assets.amount,
            unit_step(pool.liquidity.divisibility),
        );
        lemma_every_amount_is_whole_attos(out.1.amount);
        lemma_every_amount_is_whole_attos(out.0.pool_units.amount);
    }
}

/// A redemption that succeeds leaves a well-formed pool and pays out
/// well-formed assets, never more than custody held.
pub proof fn lemma_redeem_keeps_wf(pool: PoolView, pool_units: Fungible)
    requires
        pool.wf(),
        pool_units.wf(),
    ensures
        pool.redeem(pool_units) matches Ok(out) ==> out.0.wf() && out.1.wf() && out.1.amount
            <= pool.liquidity.amount,
{
    if let Ok(out) = pool.redeem(pool_units) {
        let worth = assets_for(pool_units.amount, pool.ratio)->Some_0;
        let step = unit_step(pool.liquidity.divisibility);
        lemma_worth_not_negative(pool_units.amount, pool.ratio);
        lemma_unit_step_positive(pool.liquidity.divisibility);
        lemma_round_toward_zero(worth, step);
        lemma_multiples_add_sub(pool.liquidity.amount, pool.payout(worth), step);
        lemma_every_amount_is_whole_attos(out.0.pool_units.amount);
    }
}

/// A protected withdrawal that succeeds leaves a well-formed pool and hands
/// out well-formed assets.
pub proof fn lemma_protected_withdraw_keeps_wf(
    pool: PoolView,
    amount: int,
    withdraw_type: WithdrawType,
    strategy: WithdrawStrategy,
)
    requires
        pool.wf(),
    ensures
        pool.protected_withdraw(amount, withdraw_type, strategy) matches Ok(out) ==> out.0.wf()
            && out.1.wf(),
{
    if let Ok(out) = pool.protected_withdraw(amount, withdraw_type, strategy) {
        let asked = pool.liquidity.taken(amount, strategy)->Ok_0;
        lemma_unit_step_positive(pool.liquidity.divisibility);
        lemma_multiples_add_sub(
            pool.liquidity.amount,
            asked,
            unit_step(pool.liquidity.divisibility),
        );
        lemma_recomputed_ratio(pool.less_custody(asked));
    }
}

/// A protected deposit that succeeds leaves a well-formed pool.
pub proof fn lemma_protected_deposit_keeps_wf(
    pool: PoolView,
    assets: Fungible,
    deposit_type: DepositType,
)
    requires
        pool.wf(),
        assets.wf(),
    ensures
        pool.protected_deposit(assets, deposit_type) matches Ok(after) ==> after.wf(),
{
    if let Ok(after) = pool.protected_deposit(assets, deposit_type) {
        let liquidity = pool.liquidity.received(assets)->Ok_0;
        lemma_unit_step_positive(pool.liquidity.divisibility);
        lemma_multiples_add_sub(
            pool.liquidity.amount,
            assets.amount,
            unit_step(pool.liquidity.divisibility),
        );
        lemma_recomputed_ratio(PoolView { liquidity, ..pool });
    }
}

/// A change of the external liquidity that succeeds leaves a well-formed
/// pool.
pub proof fn lemma_external_liquidity_keeps_wf(pool: PoolView, amount: int)
    requires
        pool.wf(),
    ensures
        pool.increase_external_liquidity(amount) matches Ok(after) ==> after.wf(),
        pool.decrease_external_liquidity(amount) matches Ok(after) ==> after.wf(),
{
    if pool.increase_external_liquidity(amount) is Ok {
        lemma_recomputed_ratio(
            PoolView { external_liquidity: pool.external_liquidity + amount, ..pool },
        );
    }
    if pool.decrease_external_liquidity(amount) is Ok {
        lemma_recomputed_ratio(
            PoolView { external_liquidity: pool.external_liquidity - amount, ..pool },
        );
    }
}

/// A decrease of the external liquidity is refused whenever it is of more
/// than is lent out. Of an amount between nothing and what is lent out it
/// succeeds exactly where the ratio can be computed anew, and then what stays
/// lent out is not negative.
pub proof fn lemma_decrease_external_liquidity(pool: PoolView, amount: int)
    requires
        pool.wf(),
    ensures
        amount > pool.external_liquidity ==> pool.decrease_external_liquidity(amount) is Err,
        0 <= amount <= pool.external_liquidity ==> (pool.decrease_external_liquidity(amount) is Ok
            <==> (PoolView {
            external_liquidity: pool.external_liquidity - amount,
            ..pool
        }).recomputed_ratio() is Some),
        pool.decrease_external_liquidity(amount) matches Ok(after) ==> after.external_liquidity
            == pool.external_liquidity - amount && after.external_liquidity >= 0,
{
}

/// A flash loan that succeeds leaves a well-formed pool, in which only the
/// custody and the counts of receipts differ, and hands out well-formed
/// assets.
pub proof fn lemma_take_flashloan_keeps_wf(pool: PoolView, loan_amount: int, fee_amount: int)
    requires
        pool.wf(),
    ensures
        pool.take_flashloan(loan_amount, fee_amount) matches Ok(out) ==> out.0.wf() && out.1.wf()
            && out.1.amount <= loan_amount && out.0.pool_units == pool.pool_units
            && out.0.external_liquidity == pool.external_liquidity && out.0.ratio == pool.ratio,
{
    if let Ok(out) = pool.take_flashloan(loan_amount, fee_amount) {
        let step = unit_step(pool.liquidity.divisibility);
        lemma_unit_step_positive(pool.liquidity.divisibility);
        lemma_round_toward_zero(loan_amount, step);
        lemma_multiples_add_sub(pool.liquidity.amount, pool.payout(loan_amount), step);
    }
}

/// A repayment that succeeds leaves a well-formed pool and well-formed
/// change.
pub proof fn lemma_repay_flashloan_keeps_wf(
    pool: PoolView,
    repayment: Fungible,
    receipt: ReceiptView,
)
    requires
        pool.wf(),
        repayment.wf(),
    ensures
        pool.repay_flashloan(repayment, receipt) matches Ok(out) ==> out.0.wf() && out.1.wf(),
{
    if let Ok(out) = pool.repay_flashloan(repayment, receipt) {
        let due = receipt.fee_amount + receipt.loan_amount;
        let step = unit_step(pool.liquidity.divisibility);
        let paid = repayment.taken(due, WithdrawStrategy::Rounded(RoundingMode::ToZero))->Ok_0;
        lemma_unit_step_positive(pool.liquidity.divisibility);
        lemma_multiples_add_sub(pool.liquidity.amount, paid, step);
        lemma_multiples_add_sub(repayment.amount, paid, step);
    }
}

/// Units bought and sold back at one ratio give back no more than was paid
/// for them. What is lost, times the ratio, stays below one unit and the
/// ratio together; so at a ratio of one or more at most one atto is lost.
pub proof fn lemma_worth_round_trip(assets: int, ratio: int)
    requires
        0 <= assets <= decimal_max(),
        ratio > 0,
        units_for(assets, ratio) is Some,
    ensures
        assets_for(units_for(assets, ratio)->Some_0, ratio) matches Some(back) && 0 <= back
            <= assets && (assets - back) * ratio < subunits_per_unit() + ratio && (ratio
            >= subunits_per_unit() ==> assets - back <= 1),
{
    let m = subunits_per_unit();
    let exact = assets * ratio;
    let units = exact / m;
    lemma_mul_nonnegative(assets, ratio);
    lemma_div_pos_is_pos(exact, m);
    // units * m <= exact < units * m + m
    lemma_fundamental_div_mod(exact, m);
    lemma_mod_bound(exact, m);
    lemma_mul_is_commutative(units, m);
    lemma_mul_nonnegative(units, m);
    // (units * m) / ratio <= exact / ratio == assets
    lemma_div_is_ordered(units * m, exact, ratio);
    lemma_div_multiples_vanish(assets, ratio);
    lemma_mul_is_commutative(assets, ratio);
    lemma_div_pos_is_pos(units * m, ratio);
    let back = (units * m) / ratio;
    assert(back <= assets);
    // back * ratio <= units * m < back * ratio + ratio
    lemma_fundamental_div_mod(units * m, ratio);
    lemma_mod_bound(units * m, ratio);
    lemma_mul_is_commutative(ratio, back);
    // (assets - back) * ratio == exact - back * ratio < m + ratio
    lemma_mul_is_distributive_sub(ratio, assets, back);
    lemma_mul_is_commutative(ratio, assets - back);
    assert((assets - back) * ratio == exact - back * ratio);
    if ratio >= m && assets - back >= 2 {
        lemma_mul_inequality(2, assets - back, ratio);
    }
}

/// A positive whole number of steps is at least one step.
proof fn lemma_whole_steps_apart(gap: int, step: int)
    requires
        step >= 1,
        gap >= 0,
        is_multiple(gap, step),
    ensures
        gap == 0 || gap >= step,
{
    lemma_fundamental_div_mod(gap, step);
    lemma_div_pos_is_pos(gap, step);
    if gap / step >= 1 {
        lemma_mul_inequality(1, gap / step, step);
        lemma_mul_is_commutative(step, gap / step);
    }
}

/// A contribution followed at once by the redemption of the units it gave:
/// the redemption succeeds, restores the units outstanding, and pays back no
/// more than was contributed; at a ratio of one or more it pays back at most
/// one of the asset's smallest units less. The ratio is not zero.
pub proof fn lemma_contribute_then_redeem(pool: PoolView, assets: Fungible)
    requires
        pool.wf(),
        assets.wf(),
        pool.ratio > 0,
        pool.contribute(assets) is Ok,
    ensures
        ({
            let (after, units) = pool.contribute(assets)->Ok_0;
            &&& after.redeem(units) matches Ok(out)
            &&& out.1.same_resource(assets)
            &&& out.1.amount <= assets.amount
            &&& pool.ratio >= subunits_per_unit() ==> assets.amount - out.1.amount <= unit_step(
                pool.liquidity.divisibility,
            )
            &&& out.0.liquidity.amount == pool.liquidity.amount + (assets.amount - out.1.amount)
            &&& out.0 == PoolView { liquidity: out.0.liquidity, ..pool }
        }),
{
    let (after, units) = pool.contribute(assets)->Ok_0;
    let step = unit_step(pool.liquidity.divisibility);
    lemma_contribute_keeps_wf(pool, assets);
    lemma_worth_round_trip(assets.amount, pool.ratio);
    let back = assets_for(units.amount, pool.ratio)->Some_0;
    lemma_unit_step_positive(pool.liquidity.divisibility);
    lemma_round_toward_zero(back, step);
    if pool.ratio >= subunits_per_unit() && back < assets.amount {
        // `back` is one atto short of a whole number of steps, so rounding
        // it toward zero lands on the whole number below.
        lemma_multiples_add_sub(assets.amount, after.payout(back), step);
        lemma_whole_steps_apart(assets.amount - after.payout(back), step);
    }
}

/// A flash loan and its repayment with the receipt it gave, of at least the
/// loan and the fee. The repayment is refused only where custody would leave
/// its range. Else custody ends with what it had, less what was lent out,
/// plus what the loan and the fee come to in the asset's smallest units; the
/// receipt is burnt, and the units, the external liquidity and the ratio are
/// as before. A repayment of exactly the loan and the fee leaves no change,
/// and where there was no fee it leaves custody as it was before the loan. A
/// larger repayment leaves exactly the surplus as change, where the loan and
/// the fee are a whole number of the asset's smallest units.
pub proof fn lemma_flashloan_round_trip(
    pool: PoolView,
    loan_amount: int,
    fee_amount: int,
    repayment: Fungible,
)
    requires
        pool.wf(),
        repayment.wf(),
        pool.liquidity.same_resource(repayment),
        pool.take_flashloan(loan_amount, fee_amount) is Ok,
        repayment.amount >= loan_amount + fee_amount,
    ensures
        ({
            let (lent_out, lent, receipt) = pool.take_flashloan(loan_amount, fee_amount)->Ok_0;
            let due = loan_amount + fee_amount;
            let custody = pool.liquidity.amount - pool.payout(loan_amount) + pool.payout(due);
            match lent_out.repay_flashloan(repayment, receipt) {
                Ok((after, change)) => {
                    &&& after.liquidity.amount == custody
                    &&& after == PoolView {
                        liquidity: after.liquidity,
                        receipts: after.receipts,
                        ..pool
                    }
                    &&& after.receipts.outstanding == pool.receipts.outstanding
                    &&& after.pool_units == pool.pool_units
                    &&& after.external_liquidity == pool.external_liquidity
                    &&& after.ratio == pool.ratio
                    &&& change.amount == repayment.amount - pool.payout(due)
                    &&& repayment.amount == due ==> change.amount == 0
                    &&& repayment.amount == due && fee_amount == 0 ==> after.liquidity.amount
                        == pool.liquidity.amount
                    &&& is_multiple(due, unit_step(pool.liquidity.divisibility)) ==> change.amount
                        == repayment.amount - due
                },
                Err(e) => e == PoolError::Arithmetic && custody > decimal_max(),
            }
        }),
{
    let step = unit_step(pool.liquidity.divisibility);
    let due = loan_amount + fee_amount;
    lemma_take_flashloan_keeps_wf(pool, loan_amount, fee_amount);
    lemma_unit_step_positive(pool.liquidity.divisibility);
    lemma_round_toward_zero(due, step);
    lemma_round_toward_zero(loan_amount, step);
}

/// A repayment of less than the loan and the fee is refused. The loan itself
/// changed neither the units outstanding, nor the external liquidity, nor
/// the ratio.
pub proof fn lemma_short_repayment_is_refused(
    pool: PoolView,
    loan_amount: int,
    fee_amount: int,
    repayment: Fungible,
)
    requires
        pool.wf(),
        repayment.wf(),
        pool.take_flashloan(loan_amount, fee_amount) is Ok,
        repayment.amount < loan_amount + fee_amount,
    ensures
        ({
            let (lent_out, lent, receipt) = pool.take_flashloan(loan_amount, fee_amount)->Ok_0;
            &&& lent_out.repay_flashloan(repayment, receipt) is Err
            &&& pool.liquidity.same_resource(repayment) && loan_amount + fee_amount
                <= decimal_max() ==> lent_out.repay_flashloan(
                repayment,
                receipt,
            ) == Err::<(PoolView, Fungible), PoolError>(PoolError::InsufficientRepayment)
            &&& lent_out.pool_units == pool.pool_units
            &&& lent_out.external_liquidity == pool.external_liquidity
            &&& lent_out.ratio == pool.ratio
        }),
{
}

} // verus!
