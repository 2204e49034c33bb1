//! The pool: what it holds, and the operations that change it.
//!
//! Every operation either succeeds and changes the pool as its contract says,
//! or is refused with a [`PoolError`] and leaves the pool as it was.
use crate::decimal::{decimal_max, precise_max, subunits_per_unit, Decimal, PreciseDecimal};
use crate::error::PoolError;
use crate::exchange::{
    assets_for, assets_for_units, ratio_of, unit_ratio, units_for, units_for_assets,
};
use crate::fixed_point::{decimal_checked_add, decimal_checked_sub, in_decimal_range, is_precise};
use crate::manager::{
    after_burn, after_mint, FlashloanReceipt, FlashloanTerm, NonFungibleResourceManager,
    ReceiptIssuer, ReceiptView, ResourceManager, POOL_UNIT_DIVISIBILITY,
};
use crate::resource::{
    assert_fungible_res_address, assert_non_fungible_res_address, lemma_unit_step_positive,
    names_fungible, Bucket, Fungible, ResourceAddress, Vault,
};
use crate::rounding::{
    lemma_round_toward_zero, round_to_step, unit_step, RoundingMode, WithdrawStrategy,
};
use vstd::prelude::*;

verus! {

/// Why liquidity leaves the pool through [`AssetPool::protected_withdraw`].
#[derive(Clone, Copy, Debug, PartialEq, Eq, Structural)]
pub enum WithdrawType {
    /// It is lent out and stays counted as the pool's.
    ForTemporaryUse,
    /// It leaves the pool for good.
    LiquidityWithdrawal,
}

/// Why liquidity enters the pool through [`AssetPool::protected_deposit`].
#[derive(Clone, Copy, Debug, PartialEq, Eq, Structural)]
pub enum DepositType {
    /// It was lent out and comes back.
    FromTemporaryUse,
    /// It is new to the pool.
    LiquidityAddition,
}

/// What a pool holds.
pub struct PoolView {
    /// The asset in custody.
    pub liquidity: Fungible,
    /// The attos lent out and still counted as the pool's.
    pub external_liquidity: int,
    /// The pool units outstanding.
    pub pool_units: Fungible,
    /// The issuer of flash loan receipts.
    pub receipts: ReceiptIssuer,
    /// The cached ratio of pool units to liquidity, in subunits.
    pub ratio: int,
}

impl PoolView {
    /// Whether the pool is one that the operations keep: amounts that their
    /// resources can hold, no negative external liquidity, no negative ratio,
    /// a fungible asset, fungible units and receipts that are not fungible.
    pub open spec fn wf(self) -> bool {
        &&& self.liquidity.wf()
        &&& names_fungible(self.liquidity.resource)
        &&& 0 <= self.external_liquidity <= decimal_max()
        &&& self.pool_units.wf()
        &&& self.pool_units.divisibility == POOL_UNIT_DIVISIBILITY
        &&& names_fungible(self.pool_units.resource)
        &&& !names_fungible(self.receipts.resource)
        &&& 0 <= self.ratio <= precise_max()
    }

    /// The liquidity in custody and lent out together.
    pub open spec fn total_liquidity(self) -> int {
        self.liquidity.amount + self.external_liquidity
    }

    /// The ratio of the units outstanding to the total liquidity, where both
    /// the total and the ratio fit.
    pub open spec fn recomputed_ratio(self) -> Option<int> {
        if in_decimal_range(self.total_liquidity()) {
            unit_ratio(self.pool_units.amount, self.total_liquidity())
        } else {
            None
        }
    }

    /// The pool with its ratio computed anew.
    pub open spec fn recomputed(self) -> Result<PoolView, PoolError> {
        match self.recomputed_ratio() {
            Some(ratio) => Ok(PoolView { ratio, ..self }),
            None => Err(PoolError::Arithmetic),
        }
    }

    /// What is paid out of custody for `amount` attos: the amount rounded
    /// toward zero to the asset's smallest unit.
    pub open spec fn payout(self, amount: int) -> int {
        round_to_step(amount, unit_step(self.liquidity.divisibility), RoundingMode::ToZero)
    }

    /// The pool with `amount` attos less in custody.
    pub open spec fn less_custody(self, amount: int) -> PoolView {
        PoolView { liquidity: self.liquidity.with_amount(self.liquidity.amount - amount), ..self }
    }

    /// A new pool for an asset: nothing in custody or lent out, no units, no
    /// receipts yet, and a ratio of one.
    pub open spec fn fresh(
        asset: Seq<u8>,
        divisibility: u8,
        unit_resource: Seq<u8>,
        receipt_resource: Seq<u8>,
    ) -> PoolView {
        PoolView {
            liquidity: Fungible { resource: asset, divisibility, amount: 0 },
            external_liquidity: 0,
            pool_units: Fungible {
                resource: unit_resource,
                divisibility: POOL_UNIT_DIVISIBILITY,
                amount: 0,
            },
            receipts: ReceiptIssuer { resource: receipt_resource, minted: 0, outstanding: 0 },
            ratio: subunits_per_unit(),
        }
    }

    /// A contribution of `assets`: they go into custody, and units worth them
    /// at the cached ratio are minted. The ratio stays.
    pub open spec fn contribute(self, assets: Fungible) -> Result<(PoolView, Fungible), PoolError> {
        if !self.liquidity.same_resource(assets) {
            Err(PoolError::ResourceMismatch)
        } else {
            match units_for(assets.amount, self.ratio) {
                None => Err(PoolError::Arithmetic),
                Some(units) => match self.liquidity.received(assets) {
                    Err(e) => Err(e),
                    Ok(liquidity) => match after_mint(self.pool_units, units) {
                        Err(e) => Err(e),
                        Ok(pool_units) => Ok(
                            (
                                PoolView { liquidity, pool_units, ..self },
                                self.pool_units.with_amount(units),
                            ),
                        ),
                    },
                },
            }
        }
    }

    /// A redemption of `pool_units`: they are burnt, and the assets they are
    /// worth at the cached ratio are paid out of custody, provided custody
    /// has as much. The ratio stays.
    pub open spec fn redeem(self, pool_units: Fungible) -> Result<(PoolView, Fungible), PoolError> {
        if !self.pool_units.same_resource(pool_units) {
            Err(PoolError::ResourceMismatch)
        } else {
            match assets_for(pool_units.amount, self.ratio) {
                None => Err(PoolError::Arithmetic),
                Some(amount) => match after_burn(self.pool_units, pool_units) {
                    Err(e) => Err(e),
                    Ok(left) => if amount > self.liquidity.amount {
                        Err(PoolError::InsufficientLiquidity)
                    } else {
                        Ok(
                            (
                                PoolView { pool_units: left, ..self.less_custody(
                                    self.payout(amount),
                                ) },
                                self.liquidity.with_amount(self.payout(amount)),
                            ),
                        )
                    },
                },
            }
        }
    }

    /// A withdrawal of `amount` under `strategy`. Lent out, the amount asked
    /// for is added to the external liquidity and the ratio stays; withdrawn
    /// for good, the ratio is computed anew.
    pub open spec fn protected_withdraw(
        self,
        amount: int,
        withdraw_type: WithdrawType,
        strategy: WithdrawStrategy,
    ) -> Result<(PoolView, Fungible), PoolError> {
        if amount < 0 {
            Err(PoolError::InvalidAmount)
        } else {
            match self.liquidity.taken(amount, strategy) {
                Err(e) => Err(e),
                Ok(asked) => {
                    let taken = self.liquidity.with_amount(asked);
                    match withdraw_type {
                        WithdrawType::ForTemporaryUse => if in_decimal_range(
                            self.external_liquidity + amount,
                        ) {
                            Ok(
                                (
                                    PoolView {
                                        external_liquidity: self.external_liquidity + amount,
                                        ..self.less_custody(asked)
                                    },
                                    taken,
                                ),
                            )
                        } else {
                            Err(PoolError::Arithmetic)
                        },
                        WithdrawType::LiquidityWithdrawal => match self.less_custody(
                            asked,
                        ).recomputed() {
                            Ok(after) => Ok((after, taken)),
                            Err(e) => Err(e),
                        },
                    }
                },
            }
        }
    }

    /// A deposit of `assets`. Coming back from a loan, they are taken off
    /// the external liquidity, which must have as much, and the ratio stays;
    /// new to the pool, the ratio is computed anew.
    pub open spec fn protected_deposit(self, assets: Fungible, deposit_type: DepositType) -> Result<
        PoolView,
        PoolError,
    > {
        if !names_fungible(assets.resource) {
            Err(PoolError::ResourceMismatch)
        } else {
            match self.liquidity.received(assets) {
                Err(e) => Err(e),
                Ok(liquidity) => match deposit_type {
                    DepositType::FromTemporaryUse => if assets.amount > self.external_liquidity {
                        Err(PoolError::OverdrawnExternalLiquidity)
                    } else {
                        Ok(
                            PoolView {
                                liquidity,
                                external_liquidity: self.external_liquidity - assets.amount,
                                ..self
                            },
                        )
                    },
                    DepositType::LiquidityAddition => (PoolView { liquidity, ..self }).recomputed(),
                },
            }
        }
    }

    /// A gain of `amount` on the liquidity lent out; the ratio is computed
    /// anew.
    pub open spec fn increase_external_liquidity(self, amount: int) -> Result<PoolView, PoolError> {
        if amount < 0 {
            Err(PoolError::InvalidAmount)
        } else if !in_decimal_range(self.external_liquidity + amount) {
            Err(PoolError::Arithmetic)
        } else {
            (PoolView { external_liquidity: self.external_liquidity + amount, ..self }).recomputed()
        }
    }

    /// A loss of `amount` on the liquidity lent out, which must have as
    /// much; the ratio is computed anew.
    pub open spec fn decrease_external_liquidity(self, amount: int) -> Result<PoolView, PoolError> {
        if amount < 0 {
            Err(PoolError::InvalidAmount)
        } else if amount > self.external_liquidity {
            Err(PoolError::OverdrawnExternalLiquidity)
        } else {
            (PoolView { external_liquidity: self.external_liquidity - amount, ..self }).recomputed()
        }
    }

    /// The receipt that the next flash loan of `loan_amount` for `fee_amount`
    /// gets.
    pub open spec fn next_receipt(self, loan_amount: int, fee_amount: int) -> ReceiptView {
        ReceiptView {
            resource: self.receipts.resource,
            local_id: self.receipts.minted,
            loan_amount,
            fee_amount,
        }
    }

    /// A flash loan of `loan_amount` for `fee_amount`: a receipt is minted
    /// and the loan is paid out of custody, which must have as much. The
    /// ratio stays.
    pub open spec fn take_flashloan(self, loan_amount: int, fee_amount: int) -> Result<
        (PoolView, Fungible, ReceiptView),
        PoolError,
    > {
        if loan_amount <= 0 || fee_amount < 0 {
            Err(PoolError::InvalidAmount)
        } else if loan_amount > self.liquidity.amount {
            Err(PoolError::InsufficientLiquidity)
        } else if !self.receipts.can_mint() {
            Err(PoolError::Arithmetic)
        } else {
            Ok(
                (
                    PoolView {
                        receipts: self.receipts.after_mint(),
                        ..self.less_custody(self.payout(loan_amount))
                    },
                    self.liquidity.with_amount(self.payout(loan_amount)),
                    self.next_receipt(loan_amount, fee_amount),
                ),
            )
        }
    }

    /// The repayment of the flash loan that `receipt` stands for: the loan
    /// and its fee go from `repayment` into custody, the receipt is burnt, and
    /// the rest of `repayment` is the change. The ratio stays.
    pub open spec fn repay_flashloan(self, repayment: Fungible, receipt: ReceiptView) -> Result<
        (PoolView, Fungible),
        PoolError,
    > {
        let due = receipt.fee_amount + receipt.loan_amount;
        if !names_fungible(repayment.resource) || names_fungible(receipt.resource) {
            Err(PoolError::ResourceMismatch)
        } else if !self.liquidity.same_resource(repayment) || !self.receipts.can_burn(receipt) {
            Err(PoolError::ResourceMismatch)
        } else if !in_decimal_range(due) {
            Err(PoolError::Arithmetic)
        } else if repayment.amount < due {
            Err(PoolError::InsufficientRepayment)
        } else {
            match repayment.taken(due, WithdrawStrategy::Rounded(RoundingMode::ToZero)) {
                Err(e) => Err(e),
                Ok(paid) => match self.liquidity.received(repayment.with_amount(paid)) {
                    Err(e) => Err(e),
                    Ok(liquidity) => Ok(
                        (
                            PoolView { liquidity, receipts: self.receipts.after_burn(), ..self },
                            repayment.with_amount(repayment.amount - paid),
                        ),
                    ),
                },
            }
        }
    }
}

/// A pool of one fungible asset.
#[derive(Clone, Copy, Debug)]
pub struct AssetPool {
    /// The custody of the pooled asset.
    liquidity: Vault,
    /// What was taken from the pool and is not yet returned.
    external_liquidity_amount: Decimal,
    /// The issuer of flash loan receipts.
    flashloan_term_res_manager: NonFungibleResourceManager,
    /// The issuer of pool units.
    pool_unit_res_manager: ResourceManager,
    /// The cached ratio of pool units to the pooled asset.
    unit_to_asset_ratio: PreciseDecimal,
}

impl View for AssetPool {
    type V = PoolView;

    closed spec fn view(&self) -> PoolView {
        PoolView {
            liquidity: self.liquidity@,
            external_liquidity: self.external_liquidity_amount@,
            pool_units: self.pool_unit_res_manager@,
            receipts: self.flashloan_term_res_manager@,
            ratio: self.unit_to_asset_ratio@,
        }
    }
}

impl AssetPool {
    /// Whether the pool is well formed, as [`PoolView::wf`] says.
    pub open spec fn wf(&self) -> bool {
        self@.wf()
    }

    /// A pool put together from its parts. Refused with
    /// [`PoolError::ResourceMismatch`] where the asset or the units are not
    /// fungible or the receipts are, and else with
    /// [`PoolError::InvalidAmount`] where the external liquidity or the
    /// ratio is negative.
    pub fn from_parts(
        liquidity: Vault,
        external_liquidity_amount: Decimal,
        flashloan_term_res_manager: NonFungibleResourceManager,
        pool_unit_res_manager: ResourceManager,
        unit_to_asset_ratio: PreciseDecimal,
    ) -> (r: Result<AssetPool, PoolError>)
        requires
            liquidity.wf(),
            pool_unit_res_manager.wf(),
        ensures
            r matches Ok(pool) ==> pool.wf() && pool@ == (PoolView {
                liquidity: liquidity@,
                external_liquidity: external_liquidity_amount@,
                pool_units: pool_unit_res_manager@,
                receipts: flashloan_term_res_manager@,
                ratio: unit_to_asset_ratio@,
            }),
            r matches Err(e) ==> e == (if names_fungible(liquidity@.resource) && names_fungible(
                pool_unit_res_manager@.resource,
            ) && !names_fungible(flashloan_term_res_manager@.resource) {
                PoolError::InvalidAmount
            } else {
                PoolError::ResourceMismatch
            }),
            r is Ok <==> names_fungible(liquidity@.resource) && names_fungible(
                pool_unit_res_manager@.resource,
            ) && !names_fungible(flashloan_term_res_manager@.resource) && external_liquidity_amount@
                >= 0 && unit_to_asset_ratio@ >= 0,
    {
        if !liquidity.resource_address().is_fungible()
            || !pool_unit_res_manager.address().is_fungible()
            || flashloan_term_res_manager.address().is_fungible() {
            return Err(PoolError::ResourceMismatch);
        }
        if external_liquidity_amount.is_negative() || unit_to_asset_ratio.is_negative() {
            return Err(PoolError::InvalidAmount);
        }
        Ok(
            AssetPool {
                liquidity,
                external_liquidity_amount,
                flashloan_term_res_manager,
                pool_unit_res_manager,
                unit_to_asset_ratio,
            },
        )
    }

    /// A new pool for the asset at `pool_res_address`, whose smallest unit
    /// has `divisibility` decimal places, with its units at
    /// `pool_unit_res_address` and its receipts at
    /// `flashloan_term_res_address`. The pool comes with those two addresses.
    /// Refused where the asset or the units are not fungible, the receipts
    /// are, or the divisibility is above eighteen.
    pub fn instantiate_localy(
        pool_res_address: ResourceAddress,
        divisibility: u8,
        pool_unit_res_address: ResourceAddress,
        flashloan_term_res_address: ResourceAddress,
    ) -> (r: Result<(AssetPool, ResourceAddress, ResourceAddress), PoolError>)
        ensures
            r is Ok <==> names_fungible(pool_res_address@) && divisibility <= 18 && names_fungible(
                pool_unit_res_address@,
            ) && !names_fungible(flashloan_term_res_address@),
            r matches Ok(made) ==> made.0.wf() && made.0@ == PoolView::fresh(
                pool_res_address@,
                divisibility,
                pool_unit_res_address@,
                flashloan_term_res_address@,
            ) && made.1@ == pool_unit_res_address@ && made.2@ == flashloan_term_res_address@,
            r matches Err(e) ==> e == PoolError::ResourceMismatch,
    {
        if assert_fungible_res_address(pool_res_address, None).is_err() {
            return Err(PoolError::ResourceMismatch);
        }
        if assert_fungible_res_address(pool_unit_res_address, None).is_err() {
            return Err(PoolError::ResourceMismatch);
        }
        if assert_non_fungible_res_address(flashloan_term_res_address, None).is_err() {
            return Err(PoolError::ResourceMismatch);
        }
        let liquidity = match Vault::new(pool_res_address, divisibility) {
            Some(vault) => vault,
            None => {
                return Err(PoolError::ResourceMismatch);
            },
        };
        let pool_unit_res_manager = match ResourceManager::new(
            pool_unit_res_address,
            Decimal::zero(),
        ) {
            Some(manager) => manager,
            None => {
                return Err(PoolError::ResourceMismatch);
            },
        };
        let flashloan_term_res_manager = NonFungibleResourceManager::new(
            flashloan_term_res_address,
            0,
            0,
        );
        let pool_component = AssetPool {
            liquidity,
            flashloan_term_res_manager,
            pool_unit_res_manager,
            external_liquidity_amount: Decimal::zero(),
            unit_to_asset_ratio: PreciseDecimal::one(),
        };
        Ok((pool_component, pool_unit_res_manager.address(), flashloan_term_res_manager.address()))
    }

    /// A new pool that is to stand under an address of its own. It starts as
    /// [`AssetPool::instantiate_localy`] says.
    pub fn instantiate(
        pool_res_address: ResourceAddress,
        divisibility: u8,
        pool_unit_res_address: ResourceAddress,
        flashloan_term_res_address: ResourceAddress,
    ) -> (r: Result<(AssetPool, ResourceAddress, ResourceAddress), PoolError>)
        ensures
            r is Ok <==> names_fungible(pool_res_address@) && divisibility <= 18 && names_fungible(
                pool_unit_res_address@,
            ) && !names_fungible(flashloan_term_res_address@),
            r matches Ok(made) ==> made.0.wf() && made.0@ == PoolView::fresh(
                pool_res_address@,
                divisibility,
                pool_unit_res_address@,
                flashloan_term_res_address@,
            ) && made.1@ == pool_unit_res_address@ && made.2@ == flashloan_term_res_address@,
            r matches Err(e) ==> e == PoolError::ResourceMismatch,
    {
        if assert_fungible_res_address(pool_res_address, None).is_err() {
            return Err(PoolError::ResourceMismatch);
        }
        AssetPool::instantiate_localy(
            pool_res_address,
            divisibility,
            pool_unit_res_address,
            flashloan_term_res_address,
        )
    }

    /// The cached ratio of pool units to the pooled asset. In a well-formed
    /// pool it is never negative.
    pub fn get_pool_unit_ratio(&self) -> (r: PreciseDecimal)
        ensures
            r@ == self@.ratio,
            self.wf() ==> r@ >= 0,
    {
        self.unit_to_asset_ratio
    }

    /// The pool units outstanding. In a well-formed pool they are never
    /// negative.
    pub fn get_pool_unit_supply(&self) -> (r: Decimal)
        ensures
            r@ == self@.pool_units.amount,
            self.wf() ==> r@ >= 0,
    {
        self.pool_unit_res_manager.total_supply()
    }

    /// The liquidity in custody, then the liquidity lent out. In a
    /// well-formed pool neither is negative.
    pub fn get_pooled_amount(&self) -> (r: (Decimal, Decimal))
        ensures
            r.0@ == self@.liquidity.amount,
            r.1@ == self@.external_liquidity,
            self.wf() ==> r.0@ >= 0 && r.1@ >= 0,
    {
        (self.liquidity.amount(), self.external_liquidity_amount)
    }

    /// The ratio of the pool units outstanding to the total liquidity, which
    /// is one where there is no liquidity and never negative; nothing where
    /// the total or the ratio does not fit.
    fn _get_unit_to_asset_ratio(&self) -> (r: Option<PreciseDecimal>)
        requires
            self.wf(),
        ensures
            is_precise(r, self@.recomputed_ratio()),
            r matches Some(ratio) ==> 0 <= ratio@ <= precise_max(),
            self@.total_liquidity() == 0 ==> (r matches Some(ratio) && ratio@
                == subunits_per_unit()),
    {
        let total_liquidity_amount = match decimal_checked_add(
            self.liquidity.amount(),
            self.external_liquidity_amount,
        ) {
            Some(total) => total,
            None => {
                return None;
            },
        };
        let total_supply = self.pool_unit_res_manager.total_supply();
        ratio_of(total_supply, total_liquidity_amount)
    }
}

impl AssetPool {
    /// Takes `assets` into custody and mints the pool units that they are
    /// worth at the cached ratio, which stays as it is. Assets of another
    /// resource are refused with [`PoolError::ResourceMismatch`], and numbers
    /// that do not fit with [`PoolError::Arithmetic`].
    pub fn contribute(&mut self, assets: Bucket) -> (r: Result<Bucket, PoolError>)
        requires
            old(self).wf(),
            assets.wf(),
        ensures
            final(self).wf(),
            match old(self)@.contribute(assets@) {
                Ok((after, units)) => r matches Ok(minted) && minted.wf() && minted@ == units
                    && final(self)@ == after,
                Err(e) => r matches Err(err) && err == e && final(self)@ == old(self)@,
            },
    {
        if !self.liquidity.accepts(&assets) {
            return Err(PoolError::ResourceMismatch);
        }
        let unit_amount = match units_for_assets(assets.amount(), self.unit_to_asset_ratio) {
            Some(units) => units,
            None => {
                return Err(PoolError::Arithmetic);
            },
        };
        let mut liquidity = self.liquidity;
        match liquidity.put(assets) {
            Ok(()) => {},
            Err(e) => {
                return Err(e);
            },
        }
        let mut pool_unit_res_manager = self.pool_unit_res_manager;
        let pool_units = match pool_unit_res_manager.mint(unit_amount) {
            Ok(minted) => minted,
            Err(e) => {
                return Err(e);
            },
        };
        self.liquidity = liquidity;
        self.pool_unit_res_manager = pool_unit_res_manager;
        Ok(pool_units)
    }

    /// Burns `pool_units` and pays out of custody the assets that they are
    /// worth at the cached ratio, rounded toward zero to the asset's smallest
    /// unit. The ratio stays as it is. Units of another resource are refused
    /// with [`PoolError::ResourceMismatch`], a worth that cannot be computed
    /// with [`PoolError::Arithmetic`], more units than are outstanding with
    /// [`PoolError::InvalidAmount`], and a worth above what is in custody
    /// with [`PoolError::InsufficientLiquidity`], however much is lent out.
    pub fn redeem(&mut self, pool_units: Bucket) -> (r: Result<Bucket, PoolError>)
        requires
            old(self).wf(),
            pool_units.wf(),
        ensures
            final(self).wf(),
            match old(self)@.redeem(pool_units@) {
                Ok((after, assets)) => r matches Ok(paid) && paid.wf() && paid@ == assets
                    && final(self)@ == after,
                Err(e) => r matches Err(err) && err == e && final(self)@ == old(self)@,
            },
            r matches Ok(paid) ==> (assets_for(pool_units@.amount, old(self)@.ratio) matches Some(
                worth,
            ) && paid@.amount <= worth <= old(self)@.liquidity.amount),
    {
        if !self.pool_unit_res_manager.issues(&pool_units) {
            return Err(PoolError::ResourceMismatch);
        }
        let amount = match assets_for_units(pool_units.amount(), self.unit_to_asset_ratio) {
            Some(assets) => assets,
            None => {
                return Err(PoolError::Arithmetic);
            },
        };
        let mut pool_unit_res_manager = self.pool_unit_res_manager;
        match pool_unit_res_manager.burn(pool_units) {
            Ok(()) => {},
            Err(e) => {
                return Err(e);
            },
        }
        if self.liquidity.amount().lt(&amount) {
            return Err(PoolError::InsufficientLiquidity);
        }
        proof {
            lemma_unit_step_positive(self@.liquidity.divisibility);
            lemma_round_toward_zero(amount@, unit_step(self@.liquidity.divisibility));
        }
        let mut liquidity = self.liquidity;
        let assets = match liquidity.take_advanced(
            amount,
            WithdrawStrategy::Rounded(RoundingMode::ToZero),
        ) {
            Ok(taken) => taken,
            Err(e) => {
                return Err(e);
            },
        };
        self.liquidity = liquidity;
        self.pool_unit_res_manager = pool_unit_res_manager;
        Ok(assets)
    }

    /// Takes `amount` out of custody as `withdraw_strategy` says. For
    /// temporary use, the amount asked for is added to the external liquidity
    /// and the ratio stays; as a withdrawal of liquidity, the ratio is
    /// computed anew. A negative amount is refused with
    /// [`PoolError::InvalidAmount`], as is an exact amount that the asset
    /// cannot hold; more than is in custody with
    /// [`PoolError::InsufficientLiquidity`]; numbers that do not fit with
    /// [`PoolError::Arithmetic`].
    pub fn protected_withdraw(
        &mut self,
        amount: Decimal,
        withdraw_type: WithdrawType,
        withdraw_strategy: WithdrawStrategy,
    ) -> (r: Result<Bucket, PoolError>)
        requires
            old(self).wf(),
        ensures
            final(self).wf(),
            match old(self)@.protected_withdraw(amount@, withdraw_type, withdraw_strategy) {
                Ok((after, assets)) => r matches Ok(taken) && taken.wf() && taken@ == assets
                    && final(self)@ == after,
                Err(e) => r matches Err(err) && err == e && final(self)@ == old(self)@,
            },
    {
        if amount.is_negative() {
            return Err(PoolError::InvalidAmount);
        }
        let mut after = *self;
        let assets = match after.liquidity.take_advanced(amount, withdraw_strategy) {
            Ok(taken) => taken,
            Err(e) => {
                return Err(e);
            },
        };
        match withdraw_type {
            WithdrawType::ForTemporaryUse => {
                after.external_liquidity_amount =
                match decimal_checked_add(self.external_liquidity_amount, amount) {
                    Some(sum) => sum,
                    None => {
                        return Err(PoolError::Arithmetic);
                    },
                };
            },
            WithdrawType::LiquidityWithdrawal => {
                after.unit_to_asset_ratio = match after._get_unit_to_asset_ratio() {
                    Some(ratio) => ratio,
                    None => {
                        return Err(PoolError::Arithmetic);
                    },
                };
            },
        }
        *self = after;
        Ok(assets)
    }

    /// Puts `assets` into custody. From temporary use, their amount is taken
    /// off the external liquidity and the ratio stays; as an addition of
    /// liquidity, the ratio is computed anew. Assets that are not the pool's
    /// are refused with [`PoolError::ResourceMismatch`]; more than is lent
    /// out, coming back from temporary use, with
    /// [`PoolError::OverdrawnExternalLiquidity`]; numbers that do not fit with
    /// [`PoolError::Arithmetic`].
    pub fn protected_deposit(&mut self, assets: Bucket, deposit_type: DepositType) -> (r: Result<
        (),
        PoolError,
    >)
        requires
            old(self).wf(),
            assets.wf(),
        ensures
            final(self).wf(),
            match old(self)@.protected_deposit(assets@, deposit_type) {
                Ok(after) => r is Ok && final(self)@ == after,
                Err(e) => r matches Err(err) && err == e && final(self)@ == old(self)@,
            },
    {
        if assert_fungible_res_address(assets.resource_address(), None).is_err() {
            return Err(PoolError::ResourceMismatch);
        }
        let amount = assets.amount();
        let mut after = *self;
        match after.liquidity.put(assets) {
            Ok(()) => {},
            Err(e) => {
                return Err(e);
            },
        }
        match deposit_type {
            DepositType::FromTemporaryUse => {
                if self.external_liquidity_amount.lt(&amount) {
                    return Err(PoolError::OverdrawnExternalLiquidity);
                }
                after.external_liquidity_amount =
                match decimal_checked_sub(self.external_liquidity_amount, amount) {
                    Some(left) => left,
                    None => {
                        return Err(PoolError::Arithmetic);
                    },
                };
            },
            DepositType::LiquidityAddition => {
                after.unit_to_asset_ratio = match after._get_unit_to_asset_ratio() {
                    Some(ratio) => ratio,
                    None => {
                        return Err(PoolError::Arithmetic);
                    },
                };
            },
        }
        *self = after;
        Ok(())
    }

    /// Records a gain of `amount` on the liquidity that is lent out, and
    /// computes the ratio anew. A negative amount is refused with
    /// [`PoolError::InvalidAmount`], numbers that do not fit with
    /// [`PoolError::Arithmetic`].
    pub fn increase_external_liquidity(&mut self, amount: Decimal) -> (r: Result<(), PoolError>)
        requires
            old(self).wf(),
        ensures
            final(self).wf(),
            match old(self)@.increase_external_liquidity(amount@) {
                Ok(after) => r is Ok && final(self)@ == after,
                Err(e) => r matches Err(err) && err == e && final(self)@ == old(self)@,
            },
    {
        if amount.is_negative() {
            return Err(PoolError::InvalidAmount);
        }
        let mut after = *self;
        after.external_liquidity_amount =
        match decimal_checked_add(self.external_liquidity_amount, amount) {
            Some(sum) => sum,
            None => {
                return Err(PoolError::Arithmetic);
            },
        };
        after.unit_to_asset_ratio = match after._get_unit_to_asset_ratio() {
            Some(ratio) => ratio,
            None => {
                return Err(PoolError::Arithmetic);
            },
        };
        *self = after;
        Ok(())
    }

    /// Records a loss of `amount` on the liquidity that is lent out, and
    /// computes the ratio anew. A negative amount is refused with
    /// [`PoolError::InvalidAmount`], more than is lent out with
    /// [`PoolError::OverdrawnExternalLiquidity`], a ratio that does not fit
    /// with [`PoolError::Arithmetic`]. Otherwise it succeeds, and what stays
    /// lent out is not negative.
    pub fn decrease_external_liquidity(&mut self, amount: Decimal) -> (r: Result<(), PoolError>)
        requires
            old(self).wf(),
        ensures
            final(self).wf(),
            match old(self)@.decrease_external_liquidity(amount@) {
                Ok(after) => r is Ok && final(self)@ == after,
                Err(e) => r matches Err(err) && err == e && final(self)@ == old(self)@,
            },
            amount@ > old(self)@.external_liquidity ==> r is Err,
            r is Ok ==> final(self)@.external_liquidity == old(self)@.external_liquidity - amount@
                && final(self)@.external_liquidity >= 0,
    {
        if amount.is_negative() {
            return Err(PoolError::InvalidAmount);
        }
        if self.external_liquidity_amount.lt(&amount) {
            return Err(PoolError::OverdrawnExternalLiquidity);
        }
        let mut after = *self;
        after.external_liquidity_amount =
        match decimal_checked_sub(self.external_liquidity_amount, amount) {
            Some(left) => left,
            None => {
                return Err(PoolError::Arithmetic);
            },
        };
        after.unit_to_asset_ratio = match after._get_unit_to_asset_ratio() {
            Some(ratio) => ratio,
            None => {
                return Err(PoolError::Arithmetic);
            },
        };
        *self = after;
        Ok(())
    }

    /// Lends `loan_amount` out of custody, rounded toward zero to the asset's
    /// smallest unit, against a new receipt that records the loan and
    /// `fee_amount`. The ratio stays as it is. A loan that is not positive or
    /// a negative fee is refused with [`PoolError::InvalidAmount`], a loan
    /// above what is in custody with [`PoolError::InsufficientLiquidity`],
    /// and a loan for which no receipt can be minted with
    /// [`PoolError::Arithmetic`].
    pub fn take_flashloan(&mut self, loan_amount: Decimal, fee_amount: Decimal) -> (r: Result<
        (Bucket, FlashloanReceipt),
        PoolError,
    >)
        requires
            old(self).wf(),
        ensures
            final(self).wf(),
            match old(self)@.take_flashloan(loan_amount@, fee_amount@) {
                Ok((after, assets, receipt)) => r matches Ok(lent) && lent.0.wf() && lent.0@
                    == assets && lent.1@ == receipt && final(self)@ == after,
                Err(e) => r matches Err(err) && err == e && final(self)@ == old(self)@,
            },
    {
        if !loan_amount.is_positive() {
            return Err(PoolError::InvalidAmount);
        }
        if fee_amount.is_negative() {
            return Err(PoolError::InvalidAmount);
        }
        if self.liquidity.amount().lt(&loan_amount) {
            return Err(PoolError::InsufficientLiquidity);
        }
        let mut after = *self;
        let loan_terms = match after.flashloan_term_res_manager.mint_ruid_non_fungible(
            FlashloanTerm { fee_amount, loan_amount },
        ) {
            Some(receipt) => receipt,
            None => {
                return Err(PoolError::Arithmetic);
            },
        };
        proof {
            lemma_unit_step_positive(self@.liquidity.divisibility);
            lemma_round_toward_zero(loan_amount@, unit_step(self@.liquidity.divisibility));
        }
        let assets = match after.liquidity.take_advanced(
            loan_amount,
            WithdrawStrategy::Rounded(RoundingMode::ToZero),
        ) {
            Ok(taken) => taken,
            Err(e) => {
                return Err(e);
            },
        };
        *self = after;
        Ok((assets, loan_terms))
    }

    /// Takes the loan and the fee that `loan_terms` records out of
    /// `loan_repayment` into custody, burns the receipt and hands back what is
    /// left of the repayment. The ratio stays as it is. A repayment that is
    /// not of the pool's asset, or a receipt that cannot be one of the pool's
    /// that is outstanding, is refused with [`PoolError::ResourceMismatch`],
    /// and a repayment of less than the loan and the fee with
    /// [`PoolError::InsufficientRepayment`].
    pub fn repay_flashloan(&mut self, loan_repayment: Bucket, loan_terms: FlashloanReceipt) -> (r:
        Result<Bucket, PoolError>)
        requires
            old(self).wf(),
            loan_repayment.wf(),
        ensures
            final(self).wf(),
            match old(self)@.repay_flashloan(loan_repayment@, loan_terms@) {
                Ok((after, rest)) => r matches Ok(change) && change.wf() && change@ == rest
                    && final(self)@ == after,
                Err(e) => r matches Err(err) && err == e && final(self)@ == old(self)@,
            },
    {
        if assert_fungible_res_address(loan_repayment.resource_address(), None).is_err() {
            return Err(PoolError::ResourceMismatch);
        }
        if assert_non_fungible_res_address(loan_terms.resource_address(), None).is_err() {
            return Err(PoolError::ResourceMismatch);
        }
        if !self.liquidity.accepts(&loan_repayment) {
            return Err(PoolError::ResourceMismatch);
        }
        if !self.flashloan_term_res_manager.can_burn(&loan_terms) {
            return Err(PoolError::ResourceMismatch);
        }
        let terms = loan_terms.data();
        let amount_due = match decimal_checked_add(terms.fee_amount, terms.loan_amount) {
            Some(due) => due,
            None => {
                return Err(PoolError::Arithmetic);
            },
        };
        if loan_repayment.amount().lt(&amount_due) {
            return Err(PoolError::InsufficientRepayment);
        }
        let mut loan_repayment = loan_repayment;
        let portion = match loan_repayment.take_advanced(
            amount_due,
            WithdrawStrategy::Rounded(RoundingMode::ToZero),
        ) {
            Ok(taken) => taken,
            Err(e) => {
                return Err(e);
            },
        };
        let mut liquidity = self.liquidity;
        match liquidity.put(portion) {
            Ok(()) => {},
            Err(e) => {
                return Err(e);
            },
        }
        let mut flashloan_term_res_manager = self.flashloan_term_res_manager;
        match flashloan_term_res_manager.burn(loan_terms) {
            Ok(_) => {},
            Err(e) => {
                return Err(e);
            },
        }
        self.liquidity = liquidity;
        self.flashloan_term_res_manager = flashloan_term_res_manager;
        Ok(loan_repayment)
    }
}

} // verus!
