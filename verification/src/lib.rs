//! Accounting for a pool of one fungible asset.
//!
//! A pool takes an asset into custody and mints pool units against it, at a
//! ratio of units to liquidity that it caches and computes anew only when
//! liquidity is added or removed without units changing hands. Liquidity may
//! be lent out and stays counted as the pool's while it is away. A flash loan
//! leaves the pool against a receipt, and only the repayment of the loan and
//! its fee uses the receipt up.
//!
//! [`pool`] holds the pool and its operations, [`laws`] what holds of them
//! taken together. [`resource`] and [`manager`] record what the custody and
//! the issuers of a ledger hold; [`exchange`], [`rounding`], [`fixed_point`]
//! and [`decimal`] are the arithmetic underneath.
pub mod decimal;
pub mod error;
pub mod exchange;
pub mod fixed_point;
pub mod laws;
pub mod manager;
pub mod pool;
pub mod resource;
pub mod rounding;

pub use decimal::{Decimal, PreciseDecimal};
pub use error::PoolError;
pub use manager::{FlashloanReceipt, FlashloanTerm, NonFungibleResourceManager, ResourceManager};
pub use pool::{AssetPool, DepositType, WithdrawType};
pub use resource::{
    assert_fungible_res_address, assert_non_fungible_res_address, Bucket, ResourceAddress, Vault,
};
pub use rounding::{RoundingMode, WithdrawStrategy};
