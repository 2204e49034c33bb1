use single_resource_pool::{
    AssetPool, Bucket, Decimal, DepositType, FlashloanTerm, NonFungibleResourceManager,
    PoolError, PreciseDecimal, ResourceAddress, ResourceManager, Vault, WithdrawStrategy,
    WithdrawType,
};

fn address(entity: u8, tag: u8) -> ResourceAddress {
    let mut bytes = [0u8; 30];
    bytes[0] = entity;
    bytes[29] = tag;
    ResourceAddress { bytes }
}

fn asset() -> ResourceAddress {
    address(93, 1)
}

fn unit() -> ResourceAddress {
    address(93, 2)
}

fn receipt() -> ResourceAddress {
    address(154, 3)
}

fn units(n: u64) -> Decimal {
    Decimal::from_u64(n)
}

fn attos(n: i128) -> Decimal {
    Decimal::from_attos(n)
}

/// `n` tenths of one.
fn tenths(n: i128) -> PreciseDecimal {
    PreciseDecimal::from_subunits(n * 100_000_000_000_000_000_000_000_000_000_000_000)
}

fn pool(divisibility: u8, custody: Decimal, external: Decimal, supply: Decimal, ratio: PreciseDecimal) -> AssetPool {
    AssetPool::from_parts(
        Vault::with_bucket(Bucket::new(asset(), divisibility, custody).unwrap()),
        external,
        NonFungibleResourceManager::new(receipt(), 0, 0),
        ResourceManager::new(unit(), supply).unwrap(),
        ratio,
    )
    .unwrap()
}

fn round_trip(divisibility: u8, ratio: PreciseDecimal, contributed: Decimal) -> Decimal {
    let mut pool = pool(divisibility, units(1000), units(0), units(1000), ratio);
    let shares = pool.contribute(Bucket::new(asset(), divisibility, contributed).unwrap()).unwrap();
    let paid = pool.redeem(shares).unwrap();
    assert_eq!(pool.get_pool_unit_supply(), units(1000));
    assert_eq!(pool.get_pool_unit_ratio(), ratio);
    assert!(paid.amount().le(&contributed));
    paid.amount()
}

#[test]
fn a_new_pool_is_empty_and_has_a_ratio_of_one() {
    let (pool, units_at, receipts_at) =
        AssetPool::instantiate_localy(asset(), 18, unit(), receipt()).unwrap();
    assert_eq!(units_at, unit());
    assert_eq!(receipts_at, receipt());
    assert_eq!(pool.get_pooled_amount(), (units(0), units(0)));
    assert_eq!(pool.get_pool_unit_supply(), units(0));
    assert_eq!(pool.get_pool_unit_ratio(), PreciseDecimal::one());
    let (global, _, _) = AssetPool::instantiate(asset(), 6, unit(), receipt()).unwrap();
    assert_eq!(global.get_pooled_amount(), (units(0), units(0)));
    assert_eq!(global.get_pool_unit_ratio(), PreciseDecimal::one());
}

#[test]
fn contribution_and_redemption_at_a_ratio_of_one_give_everything_back() {
    assert_eq!(round_trip(18, tenths(10), units(100)), units(100));
    assert_eq!(round_trip(18, tenths(10), attos(1)), attos(1));
    assert_eq!(round_trip(18, tenths(10), attos(0)), attos(0));
    assert_eq!(round_trip(2, tenths(10), attos(1_230_000_000_000_000_000)), attos(1_230_000_000_000_000_000));
}

#[test]
fn contribution_and_redemption_above_a_ratio_of_one_lose_at_most_one_smallest_unit() {
    assert_eq!(round_trip(18, tenths(30), attos(7)), attos(7));
    assert_eq!(round_trip(18, tenths(15), attos(2)), attos(2));
    // One atto buys 1.5 attos of units, of which one atto is minted, which is worth 0.66 attos.
    assert_eq!(round_trip(18, tenths(15), attos(1)), attos(0));
    assert_eq!(round_trip(18, tenths(15), attos(3)), attos(2));
    // With two decimal places the smallest unit is 0.01.
    assert_eq!(round_trip(2, tenths(15), attos(10_000_000_000_000_000)), attos(10_000_000_000_000_000));
    let third = PreciseDecimal::from_subunits(3_333_333_333_333_333_333_333_333_333_333_333_333);
    assert_eq!(round_trip(2, third, attos(70_000_000_000_000_000)), attos(60_000_000_000_000_000));
}

#[test]
fn contribution_and_redemption_below_a_ratio_of_one_may_lose_more() {
    // Nineteen attos buy 1.9 attos of units, of which one is minted, which is worth ten.
    assert_eq!(round_trip(18, tenths(1), attos(19)), attos(10));
    assert_eq!(round_trip(18, tenths(5), attos(3)), attos(2));
}

#[test]
fn units_are_minted_at_the_cached_ratio() {
    let mut half = pool(18, units(200), units(0), units(100), tenths(5));
    assert_eq!(half.contribute(Bucket::new(asset(), 18, units(100)).unwrap()).unwrap().amount(), units(50));
    assert_eq!(half.get_pooled_amount(), (units(300), units(0)));
    assert_eq!(half.get_pool_unit_supply(), units(150));
    assert_eq!(half.get_pool_unit_ratio(), tenths(5));
    // 0.1 units times 0.333... is 0.0333..., cut after the eighteenth place.
    let third = PreciseDecimal::from_subunits(333_333_333_333_333_333_333_333_333_333_333_333);
    let mut thirds = pool(18, units(300), units(0), units(100), third);
    let minted = thirds.contribute(Bucket::new(asset(), 18, attos(100_000_000_000_000_000)).unwrap()).unwrap();
    assert_eq!(minted.amount(), attos(33_333_333_333_333_333));
}

#[test]
fn the_ratio_is_one_once_no_liquidity_is_left() {
    let mut pool = pool(18, units(100), units(0), units(40), tenths(4));
    pool.protected_withdraw(units(100), WithdrawType::LiquidityWithdrawal, WithdrawStrategy::Exact)
        .unwrap();
    assert_eq!(pool.get_pooled_amount(), (units(0), units(0)));
    assert_eq!(pool.get_pool_unit_supply(), units(40));
    assert_eq!(pool.get_pool_unit_ratio(), PreciseDecimal::one());
}

#[test]
fn the_ratio_is_zero_where_liquidity_stands_against_no_units() {
    let mut pool = pool(18, units(0), units(0), units(0), tenths(10));
    pool.increase_external_liquidity(units(5)).unwrap();
    assert_eq!(pool.get_pooled_amount(), (units(0), units(5)));
    assert_eq!(pool.get_pool_unit_ratio(), PreciseDecimal::zero());
}

#[test]
fn the_ratio_follows_the_external_liquidity() {
    let mut pool = pool(18, units(60), units(40), units(100), tenths(10));
    pool.increase_external_liquidity(units(100)).unwrap();
    assert_eq!(pool.get_pooled_amount(), (units(60), units(140)));
    assert_eq!(pool.get_pool_unit_ratio(), tenths(5));
    pool.decrease_external_liquidity(units(120)).unwrap();
    assert_eq!(pool.get_pooled_amount(), (units(60), units(20)));
    assert_eq!(
        pool.get_pool_unit_ratio(),
        PreciseDecimal::from_subunits(1_250_000_000_000_000_000_000_000_000_000_000_000)
    );
    assert_eq!(pool.get_pool_unit_supply(), units(100));
}

#[test]
fn a_decrease_succeeds_up_to_what_is_lent_out() {
    let mut pool = pool(18, units(60), units(40), units(100), tenths(10));
    assert_eq!(
        pool.decrease_external_liquidity(attos(40_000_000_000_000_000_001)).unwrap_err(),
        PoolError::OverdrawnExternalLiquidity
    );
    assert_eq!(pool.get_pooled_amount(), (units(60), units(40)));
    pool.decrease_external_liquidity(units(0)).unwrap();
    assert_eq!(pool.get_pooled_amount(), (units(60), units(40)));
    pool.decrease_external_liquidity(units(40)).unwrap();
    assert_eq!(pool.get_pooled_amount(), (units(60), units(0)));
    assert_eq!(
        pool.decrease_external_liquidity(attos(1)).unwrap_err(),
        PoolError::OverdrawnExternalLiquidity
    );
}

#[test]
fn lending_out_and_taking_back_leave_the_ratio() {
    let mut pool = pool(18, units(100), units(0), units(50), tenths(5));
    let lent = pool
        .protected_withdraw(units(30), WithdrawType::ForTemporaryUse, WithdrawStrategy::Exact)
        .unwrap();
    assert_eq!(lent.amount(), units(30));
    assert_eq!(pool.get_pooled_amount(), (units(70), units(30)));
    assert_eq!(pool.get_pool_unit_ratio(), tenths(5));
    pool.protected_deposit(lent, DepositType::FromTemporaryUse).unwrap();
    assert_eq!(pool.get_pooled_amount(), (units(100), units(0)));
    assert_eq!(pool.get_pool_unit_ratio(), tenths(5));
    assert_eq!(pool.get_pool_unit_supply(), units(50));
}

#[test]
fn a_flashloan_without_fee_repaid_exactly_leaves_custody_as_it_was() {
    let mut pool = pool(18, units(1000), units(7), units(500), tenths(5));
    let (lent, loan_terms) = pool.take_flashloan(units(200), units(0)).unwrap();
    assert_eq!(pool.get_pooled_amount(), (units(800), units(7)));
    let change = pool.repay_flashloan(lent, loan_terms).unwrap();
    assert_eq!(change.amount(), units(0));
    assert_eq!(change.resource_address(), asset());
    assert_eq!(pool.get_pooled_amount(), (units(1000), units(7)));
    assert_eq!(pool.get_pool_unit_supply(), units(500));
    assert_eq!(pool.get_pool_unit_ratio(), tenths(5));
}

#[test]
fn a_flashloan_repaid_exactly_leaves_the_fee_in_custody_and_no_change() {
    let mut pool = pool(18, units(1000), units(0), units(1000), tenths(10));
    let (_lent, loan_terms) = pool.take_flashloan(units(200), units(5)).unwrap();
    let change = pool
        .repay_flashloan(Bucket::new(asset(), 18, units(205)).unwrap(), loan_terms)
        .unwrap();
    assert_eq!(change.amount(), units(0));
    assert_eq!(pool.get_pooled_amount(), (units(1005), units(0)));
}

#[test]
fn a_flashloan_repaid_with_more_hands_back_the_surplus() {
    let mut pool = pool(18, units(1000), units(0), units(1000), tenths(10));
    let (_lent, loan_terms) = pool.take_flashloan(units(200), units(5)).unwrap();
    let change = pool
        .repay_flashloan(Bucket::new(asset(), 18, units(1205)).unwrap(), loan_terms)
        .unwrap();
    assert_eq!(change.amount(), units(1000));
    assert_eq!(pool.get_pooled_amount(), (units(1005), units(0)));
}

#[test]
fn a_short_repayment_leaves_the_pool_as_the_loan_left_it() {
    let mut pool = pool(18, units(1000), units(3), units(400), tenths(4));
    let before_loan = pool;
    let (_lent, loan_terms) = pool.take_flashloan(units(200), units(5)).unwrap();
    let refused = pool.repay_flashloan(Bucket::new(asset(), 18, units(204)).unwrap(), loan_terms);
    assert_eq!(refused.unwrap_err(), PoolError::InsufficientRepayment);
    assert_eq!(pool.get_pooled_amount(), (units(800), units(3)));
    assert_eq!(pool.get_pool_unit_supply(), before_loan.get_pool_unit_supply());
    assert_eq!(pool.get_pool_unit_ratio(), before_loan.get_pool_unit_ratio());
}

#[test]
fn receipts_are_counted_and_numbered() {
    let mut issuer = NonFungibleResourceManager::new(receipt(), 0, 0);
    let terms = FlashloanTerm { loan_amount: units(2), fee_amount: units(1) };
    let first = issuer.mint_ruid_non_fungible(terms).unwrap();
    let second = issuer.mint_ruid_non_fungible(terms).unwrap();
    assert_eq!((first.local_id(), second.local_id()), (0, 1));
    assert_eq!(first.resource_address(), receipt());
    assert_eq!((issuer.minted(), issuer.total_supply()), (2, 2));
    assert!(issuer.can_burn(&first));
    assert_eq!(issuer.burn(first), Ok(terms));
    assert_eq!((issuer.minted(), issuer.total_supply()), (2, 1));
    assert_eq!(issuer.burn(second), Ok(terms));
    assert_eq!((issuer.minted(), issuer.total_supply()), (2, 0));
    let third = issuer.mint_ruid_non_fungible(terms).unwrap();
    assert_eq!(third.local_id(), 2);
    let mut other = NonFungibleResourceManager::new(address(154, 8), 0, 5);
    assert!(!other.can_burn(&third));
    assert_eq!(other.burn(third), Err(PoolError::ResourceMismatch));
    assert_eq!(other.total_supply(), 5);
    assert_eq!(other.address(), address(154, 8));
}

#[test]
fn units_are_minted_and_burnt_by_their_issuer() {
    let mut issuer = ResourceManager::new(unit(), units(10)).unwrap();
    let minted = issuer.mint(units(5)).unwrap();
    assert_eq!(minted.amount(), units(5));
    assert_eq!(minted.resource_address(), unit());
    assert_eq!(minted.divisibility(), 18);
    assert_eq!(issuer.total_supply(), units(15));
    assert!(issuer.issues(&minted));
    assert_eq!(issuer.burn(minted), Ok(()));
    assert_eq!(issuer.total_supply(), units(10));
    assert_eq!(issuer.mint(attos(-1)).unwrap_err(), PoolError::InvalidAmount);
    let stranger = Bucket::new(asset(), 18, units(1)).unwrap();
    assert!(!issuer.issues(&stranger));
    assert_eq!(issuer.burn(stranger), Err(PoolError::ResourceMismatch));
    let too_much = Bucket::new(unit(), 18, units(11)).unwrap();
    assert_eq!(issuer.burn(too_much), Err(PoolError::InvalidAmount));
    assert_eq!(issuer.total_supply(), units(10));
    assert_eq!(issuer.address(), unit());
}

#[test]
fn a_vault_takes_and_gives_buckets_of_its_resource() {
    let mut vault = Vault::new(asset(), 2).unwrap();
    assert_eq!(vault.amount(), units(0));
    assert_eq!(vault.divisibility(), 2);
    assert_eq!(vault.resource_address(), asset());
    let fits = Bucket::new(asset(), 2, units(3)).unwrap();
    assert!(vault.accepts(&fits));
    assert_eq!(vault.put(fits), Ok(()));
    assert_eq!(vault.amount(), units(3));
    let finer = Bucket::new(asset(), 3, units(3)).unwrap();
    assert!(!vault.accepts(&finer));
    assert_eq!(vault.put(finer), Err(PoolError::ResourceMismatch));
    assert_eq!(vault.put(Bucket::new(unit(), 2, units(3)).unwrap()), Err(PoolError::ResourceMismatch));
    assert_eq!(vault.amount(), units(3));
    let mut taken = vault.take_advanced(units(2), WithdrawStrategy::Exact).unwrap();
    assert_eq!((taken.amount(), vault.amount()), (units(2), units(1)));
    let part = taken.take_advanced(units(1), WithdrawStrategy::Exact).unwrap();
    assert_eq!((part.amount(), taken.amount()), (units(1), units(1)));
    assert_eq!(
        taken.take_advanced(units(2), WithdrawStrategy::Exact).unwrap_err(),
        PoolError::InsufficientLiquidity
    );
    assert_eq!(
        vault.take_advanced(attos(-10_000_000_000_000_000), WithdrawStrategy::Exact).unwrap_err(),
        PoolError::InvalidAmount
    );
    let largest = Decimal { digits: [u64::MAX, u64::MAX, 0x7fff_ffff_ffff_ffff] };
    let mut full = Vault::with_bucket(Bucket::new(asset(), 18, largest).unwrap());
    assert_eq!(full.put(Bucket::new(asset(), 18, attos(1)).unwrap()), Err(PoolError::Arithmetic));
    assert_eq!(full.amount(), largest);
}
