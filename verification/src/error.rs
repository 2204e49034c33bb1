//! Why an operation on the pool is refused.
use vstd::prelude::*;

verus! {

/// The reason for which an operation is refused. A refused operation leaves
/// the pool as it was.
#[derive(Clone, Copy, Debug, PartialEq, Eq, Structural)]
pub enum PoolError {
    /// An asset, a share or a receipt is not of the resource that the pool expects.
    ResourceMismatch,
    /// An amount is negative where it may not be, zero where it must be
    /// positive, or not one that the resource can hold.
    InvalidAmount,
    /// More is asked of the pool than it has in custody.
    InsufficientLiquidity,
    /// A flash loan is repaid with less than the loan and its fee.
    InsufficientRepayment,
    /// More liquidity is reported back than is recorded as lent out.
    OverdrawnExternalLiquidity,
    /// A computed number does not fit its fixed-point type, or a division by zero was asked for.
    Arithmetic,
}

} // verus!
