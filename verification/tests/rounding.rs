use single_resource_pool::{
    assert_fungible_res_address, assert_non_fungible_res_address, AssetPool, Bucket, Decimal,
    NonFungibleResourceManager, PoolError, PreciseDecimal, ResourceAddress, ResourceManager,
    RoundingMode, Vault, WithdrawStrategy, WithdrawType,
};

fn address(entity: u8, tag: u8) -> ResourceAddress {
    let mut bytes = [0u8; 30];
    bytes[0] = entity;
    bytes[29] = tag;
    ResourceAddress { bytes }
}

fn asset() -> ResourceAddress {
    address(93, 1)
}

fn unit() -> ResourceAddress {
    address(93, 2)
}

fn receipt() -> ResourceAddress {
    address(154, 3)
}

fn units(n: u64) -> Decimal {
    Decimal::from_u64(n)
}

/// `n` thousandths of a unit.
fn thousandths(n: i128) -> Decimal {
    Decimal::from_attos(n * 1_000_000_000_000_000)
}

/// A pool whose asset has two decimal places, with `custody` units in custody.
fn coarse_pool(custody: u64) -> AssetPool {
    AssetPool::from_parts(
        Vault::with_bucket(Bucket::new(asset(), 2, units(custody)).unwrap()),
        units(0),
        NonFungibleResourceManager::new(receipt(), 0, 0),
        ResourceManager::new(unit(), units(custody)).unwrap(),
        PreciseDecimal::one(),
    )
    .unwrap()
}

fn withdrawn(amount: Decimal, mode: RoundingMode) -> Decimal {
    let mut pool = coarse_pool(1000);
    pool.protected_withdraw(amount, WithdrawType::ForTemporaryUse, WithdrawStrategy::Rounded(mode))
        .unwrap()
        .amount()
}

#[test]
fn a_bucket_holds_only_what_its_resource_can_hold() {
    assert!(Bucket::new(asset(), 2, thousandths(1230)).is_some());
    assert!(Bucket::new(asset(), 2, thousandths(1239)).is_none());
    assert!(Bucket::new(asset(), 3, thousandths(1239)).is_some());
    assert!(Bucket::new(asset(), 0, units(7)).is_some());
    assert!(Bucket::new(asset(), 0, thousandths(7500)).is_none());
    assert!(Bucket::new(asset(), 18, Decimal::from_attos(1)).is_some());
    assert!(Bucket::new(asset(), 18, Decimal::from_attos(-1)).is_none());
    assert!(Bucket::new(asset(), 19, units(1)).is_none());
    assert!(Vault::new(asset(), 18).is_some());
    assert!(Vault::new(asset(), 19).is_none());
}

#[test]
fn a_withdrawal_is_rounded_as_the_mode_says() {
    assert_eq!(withdrawn(thousandths(1239), RoundingMode::ToZero), thousandths(1230));
    assert_eq!(withdrawn(thousandths(1231), RoundingMode::AwayFromZero), thousandths(1240));
    assert_eq!(withdrawn(thousandths(1231), RoundingMode::ToPositiveInfinity), thousandths(1240));
    assert_eq!(withdrawn(thousandths(1239), RoundingMode::ToNegativeInfinity), thousandths(1230));
    assert_eq!(
        withdrawn(thousandths(1234), RoundingMode::ToNearestMidpointTowardZero),
        thousandths(1230)
    );
    assert_eq!(
        withdrawn(thousandths(1235), RoundingMode::ToNearestMidpointTowardZero),
        thousandths(1230)
    );
    assert_eq!(
        withdrawn(thousandths(1236), RoundingMode::ToNearestMidpointTowardZero),
        thousandths(1240)
    );
    assert_eq!(
        withdrawn(thousandths(1235), RoundingMode::ToNearestMidpointAwayFromZero),
        thousandths(1240)
    );
    assert_eq!(
        withdrawn(thousandths(1234), RoundingMode::ToNearestMidpointAwayFromZero),
        thousandths(1230)
    );
    assert_eq!(
        withdrawn(thousandths(1235), RoundingMode::ToNearestMidpointToEven),
        thousandths(1240)
    );
    assert_eq!(
        withdrawn(thousandths(1245), RoundingMode::ToNearestMidpointToEven),
        thousandths(1240)
    );
    assert_eq!(
        withdrawn(thousandths(1246), RoundingMode::ToNearestMidpointToEven),
        thousandths(1250)
    );
}

#[test]
fn a_whole_number_of_smallest_units_is_not_rounded() {
    for mode in [
        RoundingMode::ToPositiveInfinity,
        RoundingMode::ToNegativeInfinity,
        RoundingMode::ToZero,
        RoundingMode::AwayFromZero,
        RoundingMode::ToNearestMidpointTowardZero,
        RoundingMode::ToNearestMidpointAwayFromZero,
        RoundingMode::ToNearestMidpointToEven,
    ] {
        assert_eq!(withdrawn(thousandths(1230), mode), thousandths(1230));
        assert_eq!(withdrawn(units(0), mode), units(0));
    }
}

#[test]
fn an_exact_withdrawal_takes_the_amount_as_it_is() {
    let mut pool = coarse_pool(1000);
    let taken = pool
        .protected_withdraw(
            thousandths(1230),
            WithdrawType::ForTemporaryUse,
            WithdrawStrategy::Exact,
        )
        .unwrap();
    assert_eq!(taken.amount(), thousandths(1230));
    assert_eq!(taken.divisibility(), 2);
    assert_eq!(pool.get_pooled_amount(), (thousandths(998_770), thousandths(1230)));
}

#[test]
fn a_temporary_withdrawal_records_the_amount_asked_for() {
    let mut pool = coarse_pool(1000);
    let before = pool.get_pool_unit_ratio();
    let taken = pool
        .protected_withdraw(
            thousandths(1239),
            WithdrawType::ForTemporaryUse,
            WithdrawStrategy::Rounded(RoundingMode::ToZero),
        )
        .unwrap();
    assert_eq!(taken.amount(), thousandths(1230));
    assert_eq!(pool.get_pooled_amount(), (thousandths(998_770), thousandths(1239)));
    assert_eq!(pool.get_pool_unit_ratio(), before);
}

#[test]
fn a_rounding_up_beyond_custody_is_refused() {
    let mut pool = coarse_pool(1);
    let most = pool.protected_withdraw(
        thousandths(999),
        WithdrawType::LiquidityWithdrawal,
        WithdrawStrategy::Rounded(RoundingMode::ToNegativeInfinity),
    );
    assert_eq!(most.unwrap().amount(), thousandths(990));
    let rest = pool.protected_withdraw(
        thousandths(1),
        WithdrawType::LiquidityWithdrawal,
        WithdrawStrategy::Rounded(RoundingMode::AwayFromZero),
    );
    assert_eq!(rest.unwrap().amount(), thousandths(10));
    assert_eq!(pool.get_pooled_amount(), (units(0), units(0)));
    let refused = pool.protected_withdraw(
        thousandths(1),
        WithdrawType::LiquidityWithdrawal,
        WithdrawStrategy::Rounded(RoundingMode::AwayFromZero),
    );
    assert_eq!(refused.unwrap_err(), PoolError::InsufficientLiquidity);
}

#[test]
fn a_redemption_pays_whole_smallest_units() {
    // 3 units outstanding against 10 of liquidity: each unit is worth 3.333...
    let mut pool = AssetPool::from_parts(
        Vault::with_bucket(Bucket::new(asset(), 2, units(10)).unwrap()),
        units(0),
        NonFungibleResourceManager::new(receipt(), 0, 0),
        ResourceManager::new(unit(), units(3)).unwrap(),
        PreciseDecimal::from_subunits(300_000_000_000_000_000_000_000_000_000_000_000),
    )
    .unwrap();
    let paid = pool.redeem(Bucket::new(unit(), 18, units(1)).unwrap()).unwrap();
    assert_eq!(paid.amount(), thousandths(3330));
    assert_eq!(pool.get_pooled_amount(), (thousandths(6670), units(0)));
    assert_eq!(pool.get_pool_unit_supply(), units(2));
}

#[test]
fn a_flashloan_is_paid_out_and_taken_back_in_whole_smallest_units() {
    let mut pool = coarse_pool(1000);
    let (lent, loan_terms) = pool.take_flashloan(thousandths(1239), thousandths(1)).unwrap();
    assert_eq!(lent.amount(), thousandths(1230));
    assert_eq!(loan_terms.data().loan_amount, thousandths(1239));
    assert_eq!(loan_terms.data().fee_amount, thousandths(1));
    assert_eq!(loan_terms.local_id(), 0);
    let repayment = Bucket::new(asset(), 2, units(2)).unwrap();
    let change = pool.repay_flashloan(repayment, loan_terms).unwrap();
    assert_eq!(change.amount(), thousandths(760));
    assert_eq!(pool.get_pooled_amount(), (thousandths(1_000_010), units(0)));
    let (_lent, next) = pool.take_flashloan(units(1), units(0)).unwrap();
    assert_eq!(next.local_id(), 1);
    let (_lent, last) = pool.take_flashloan(units(1), units(0)).unwrap();
    assert_eq!(last.local_id(), 2);
}

#[test]
fn addresses_are_told_apart_by_their_first_byte() {
    assert!(asset().is_fungible());
    assert!(!receipt().is_fungible());
    assert!(!address(0, 1).is_fungible());
    assert!(asset().same(&address(93, 1)));
    assert!(!asset().same(&unit()));
    assert_eq!(assert_fungible_res_address(asset(), None), Ok(()));
    assert_eq!(
        assert_fungible_res_address(receipt(), None),
        Err("Resource must be fungible".to_string())
    );
    assert_eq!(
        assert_fungible_res_address(receipt(), Some("not this one".to_string())),
        Err("not this one".to_string())
    );
    assert_eq!(assert_non_fungible_res_address(receipt(), None), Ok(()));
    assert_eq!(
        assert_non_fungible_res_address(asset(), None),
        Err("Resource must be non fungible".to_string())
    );
    assert_eq!(
        assert_non_fungible_res_address(unit(), Some("units are fungible".to_string())),
        Err("units are fungible".to_string())
    );
}

fn taken_from_a_vault(amount: Decimal, mode: RoundingMode) -> Result<Decimal, PoolError> {
    let mut vault = Vault::with_bucket(Bucket::new(asset(), 2, units(1)).unwrap());
    vault
        .take_advanced(amount, WithdrawStrategy::Rounded(mode))
        .map(|bucket| bucket.amount())
}

#[test]
fn a_negative_amount_is_rounded_before_it_is_judged() {
    let nothing = Ok(units(0));
    let refused = Err(PoolError::InvalidAmount);
    assert_eq!(taken_from_a_vault(thousandths(-1), RoundingMode::ToZero), nothing);
    assert_eq!(taken_from_a_vault(thousandths(-9), RoundingMode::ToPositiveInfinity), nothing);
    assert_eq!(taken_from_a_vault(thousandths(-1), RoundingMode::ToNegativeInfinity), refused);
    assert_eq!(taken_from_a_vault(thousandths(-1), RoundingMode::AwayFromZero), refused);
    assert_eq!(taken_from_a_vault(thousandths(-10), RoundingMode::ToZero), refused);
    assert_eq!(
        taken_from_a_vault(thousandths(-4), RoundingMode::ToNearestMidpointAwayFromZero),
        nothing
    );
    assert_eq!(
        taken_from_a_vault(thousandths(-5), RoundingMode::ToNearestMidpointAwayFromZero),
        refused
    );
    assert_eq!(
        taken_from_a_vault(thousandths(-5), RoundingMode::ToNearestMidpointTowardZero),
        nothing
    );
    assert_eq!(
        taken_from_a_vault(thousandths(-6), RoundingMode::ToNearestMidpointTowardZero),
        refused
    );
    assert_eq!(
        taken_from_a_vault(thousandths(-5), RoundingMode::ToNearestMidpointToEven),
        nothing
    );
    assert_eq!(
        taken_from_a_vault(thousandths(-6), RoundingMode::ToNearestMidpointToEven),
        refused
    );
}

#[test]
fn a_rounding_above_what_is_held_is_refused() {
    assert_eq!(taken_from_a_vault(thousandths(995), RoundingMode::ToZero), Ok(thousandths(990)));
    assert_eq!(
        taken_from_a_vault(thousandths(995), RoundingMode::ToNearestMidpointToEven),
        Ok(units(1))
    );
    assert_eq!(
        taken_from_a_vault(thousandths(1001), RoundingMode::ToPositiveInfinity),
        Err(PoolError::InsufficientLiquidity)
    );
    assert_eq!(taken_from_a_vault(thousandths(1001), RoundingMode::ToZero), Ok(units(1)));
}
