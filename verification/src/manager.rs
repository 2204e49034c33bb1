//! The issuers by which a pool mints and burns: one for its pool units, one
//! for the receipts of its flash loans.
use crate::decimal::Decimal;
use crate::error::PoolError;
use crate::fixed_point::{decimal_checked_add, decimal_checked_sub, in_decimal_range};
use crate::resource::{Bucket, Fungible, ResourceAddress};
use crate::rounding::unit_step;
use vstd::arithmetic::div_mod::lemma_mod_multiples_basic;
use vstd::arithmetic::power::lemma_pow0;
use vstd::prelude::*;

verus! {

/// The decimal places of a pool unit.
pub const POOL_UNIT_DIVISIBILITY: u8 = 18;

/// Every amount is a whole number of attos, the smallest unit of a resource
/// with eighteen decimal places.
pub proof fn lemma_every_amount_is_whole_attos(amount: int)
    ensures
        unit_step(18) == 1,
        amount % unit_step(18) == 0,
{
    lemma_pow0(10);
    lemma_mod_multiples_basic(amount, 1);
}

/// The issuer of a fungible resource with eighteen decimal places. Its view
/// is the resource with the supply that is outstanding.
#[derive(Clone, Copy, Debug)]
pub struct ResourceManager {
    address: ResourceAddress,
    total_supply: Decimal,
}

impl View for ResourceManager {
    type V = Fungible;

    closed spec fn view(&self) -> Fungible {
        Fungible {
            resource: self.address@,
            divisibility: POOL_UNIT_DIVISIBILITY,
            amount: self.total_supply@,
        }
    }
}

/// What an issuer of `supply` is after it minted `amount`.
pub open spec fn after_mint(supply: Fungible, amount: int) -> Result<Fungible, PoolError> {
    if amount < 0 {
        Err(PoolError::InvalidAmount)
    } else if !in_decimal_range(supply.amount + amount) {
        Err(PoolError::Arithmetic)
    } else {
        Ok(supply.with_amount(supply.amount + amount))
    }
}

/// What an issuer of `supply` is after it burned `burnt`.
pub open spec fn after_burn(supply: Fungible, burnt: Fungible) -> Result<Fungible, PoolError> {
    if !supply.same_resource(burnt) {
        Err(PoolError::ResourceMismatch)
    } else if burnt.amount > supply.amount {
        Err(PoolError::InvalidAmount)
    } else {
        Ok(supply.with_amount(supply.amount - burnt.amount))
    }
}

impl ResourceManager {
    /// Whether the supply is one that the resource can have.
    pub open spec fn wf(&self) -> bool {
        self@.wf() && self@.divisibility == POOL_UNIT_DIVISIBILITY
    }

    /// The issuer of the resource at `address`, with `total_supply`
    /// outstanding; nothing where the supply is negative.
    pub fn new(address: ResourceAddress, total_supply: Decimal) -> (r: Option<ResourceManager>)
        ensures
            r is Some <==> total_supply@ >= 0,
            r matches Some(manager) ==> manager.wf() && manager@ == (Fungible {
                resource: address@,
                divisibility: POOL_UNIT_DIVISIBILITY,
                amount: total_supply@,
            }),
    {
        if total_supply.is_negative() {
            None
        } else {
            proof {
                lemma_every_amount_is_whole_attos(total_supply@);
            }
            Some(ResourceManager { address, total_supply })
        }
    }

    /// The address of the resource.
    pub fn address(&self) -> (r: ResourceAddress)
        ensures
            r@ == self@.resource,
    {
        self.address
    }

    /// The supply that is outstanding.
    pub fn total_supply(&self) -> (r: Decimal)
        ensures
            r@ == self@.amount,
    {
        self.total_supply
    }

    /// Whether `bucket` is of the issuer's resource.
    pub fn issues(&self, bucket: &Bucket) -> (r: bool)
        ensures
            r == self@.same_resource(bucket@),
    {
        self.address.same(&bucket.resource_address()) && bucket.divisibility()
            == POOL_UNIT_DIVISIBILITY
    }

    /// Mints `amount` into a new bucket. A negative amount, or one that
    /// would lift the supply out of range, is refused and the supply stays.
    pub fn mint(&mut self, amount: Decimal) -> (r: Result<Bucket, PoolError>)
        requires
            old(self).wf(),
        ensures
            final(self).wf(),
            match after_mint(old(self)@, amount@) {
                Ok(after) => r matches Ok(minted) && minted.wf() && minted@ == old(
                    self,
                )@.with_amount(amount@) && final(self)@ == after,
                Err(e) => r matches Err(err) && err == e && final(self)@ == old(self)@,
            },
    {
        if amount.is_negative() {
            return Err(PoolError::InvalidAmount);
        }
        let sum = match decimal_checked_add(self.total_supply, amount) {
            Some(sum) => sum,
            None => {
                return Err(PoolError::Arithmetic);
            },
        };
        proof {
            lemma_every_amount_is_whole_attos(amount@);
            lemma_every_amount_is_whole_attos(sum@);
        }
        match Bucket::new(self.address, POOL_UNIT_DIVISIBILITY, amount) {
            Some(minted) => {
                self.total_supply = sum;
                Ok(minted)
            },
            None => Err(PoolError::InvalidAmount),
        }
    }

    /// Burns the bucket. One of another resource, or of more than the supply,
    /// is refused and the supply stays.
    pub fn burn(&mut self, bucket: Bucket) -> (r: Result<(), PoolError>)
        requires
            old(self).wf(),
            bucket.wf(),
        ensures
            final(self).wf(),
            match after_burn(old(self)@, bucket@) {
                Ok(after) => r is Ok && final(self)@ == after,
                Err(e) => r matches Err(err) && err == e && final(self)@ == old(self)@,
            },
    {
        if !self.issues(&bucket) {
            return Err(PoolError::ResourceMismatch);
        }
        let burnt = bucket.amount();
        if self.total_supply.lt(&burnt) {
            return Err(PoolError::InvalidAmount);
        }
        match decimal_checked_sub(self.total_supply, burnt) {
            Some(left) => {
                proof {
                    lemma_every_amount_is_whole_attos(left@);
                }
                self.total_supply = left;
                Ok(())
            },
            None => Err(PoolError::Arithmetic),
        }
    }
}

/// The terms of one flash loan.
#[derive(Clone, Copy, Debug, PartialEq, Eq)]
pub struct FlashloanTerm {
    /// What was lent.
    pub loan_amount: Decimal,
    /// What is owed on top of it.
    pub fee_amount: Decimal,
}

/// What a receipt says.
pub struct ReceiptView {
    /// The address of the receipts' resource.
    pub resource: Seq<u8>,
    /// The receipt's number among those of its resource.
    pub local_id: u64,
    /// The attos lent.
    pub loan_amount: int,
    /// The attos owed on top of them.
    pub fee_amount: int,
}

/// The receipt of one flash loan. It cannot be copied, and repaying the loan
/// uses it up.
#[derive(Debug)]
pub struct FlashloanReceipt {
    resource_address: ResourceAddress,
    local_id: u64,
    terms: FlashloanTerm,
}

impl View for FlashloanReceipt {
    type V = ReceiptView;

    closed spec fn view(&self) -> ReceiptView {
        ReceiptView {
            resource: self.resource_address@,
            local_id: self.local_id,
            loan_amount: self.terms.loan_amount@,
            fee_amount: self.terms.fee_amount@,
        }
    }
}

impl FlashloanReceipt {
    /// The receipt numbered `local_id` of the resource at `resource_address`,
    /// with `terms`.
    pub fn new(resource_address: ResourceAddress, local_id: u64, terms: FlashloanTerm) -> (r:
        FlashloanReceipt)
        ensures
            r@ == (ReceiptView {
                resource: resource_address@,
                local_id,
                loan_amount: terms.loan_amount@,
                fee_amount: terms.fee_amount@,
            }),
    {
        FlashloanReceipt { resource_address, local_id, terms }
    }

    /// The address of the receipt's resource.
    pub fn resource_address(&self) -> (r: ResourceAddress)
        ensures
            r@ == self@.resource,
    {
        self.resource_address
    }

    /// The receipt's number among those of its resource.
    pub fn local_id(&self) -> (r: u64)
        ensures
            r == self@.local_id,
    {
        self.local_id
    }

    /// The terms of the loan.
    pub fn data(&self) -> (r: FlashloanTerm)
        ensures
            r.loan_amount@ == self@.loan_amount,
            r.fee_amount@ == self@.fee_amount,
    {
        self.terms
    }
}

/// What the issuer of receipts records.
pub struct ReceiptIssuer {
    /// The address of the receipts' resource.
    pub resource: Seq<u8>,
    /// How many receipts were minted so far.
    pub minted: u64,
    /// How many receipts were minted and not yet burnt.
    pub outstanding: u64,
}

impl ReceiptIssuer {
    /// Whether another receipt can be minted: a number is left for it, and
    /// room in the count of those outstanding.
    pub open spec fn can_mint(self) -> bool {
        self.minted < u64::MAX && self.outstanding < u64::MAX
    }

    /// The issuer after it minted a receipt.
    pub open spec fn after_mint(self) -> ReceiptIssuer {
        ReceiptIssuer {
            minted: (self.minted + 1) as u64,
            outstanding: (self.outstanding + 1) as u64,
            ..self
        }
    }

    /// Whether `receipt` can be one of the issuer's that is outstanding: it
    /// is of the issuer's resource, and not all receipts are burnt.
    pub open spec fn can_burn(self, receipt: ReceiptView) -> bool {
        receipt.resource == self.resource && self.outstanding > 0
    }

    /// The issuer after it burnt a receipt.
    pub open spec fn after_burn(self) -> ReceiptIssuer {
        ReceiptIssuer { outstanding: (self.outstanding - 1) as u64, ..self }
    }
}

/// The issuer of the receipts of flash loans. Each receipt gets the number of
/// those minted before it, so no two receipts of one issuer share a number.
#[derive(Clone, Copy, Debug)]
pub struct NonFungibleResourceManager {
    address: ResourceAddress,
    minted: u64,
    outstanding: u64,
}

impl View for NonFungibleResourceManager {
    type V = ReceiptIssuer;

    closed spec fn view(&self) -> ReceiptIssuer {
        ReceiptIssuer {
            resource: self.address@,
            minted: self.minted,
            outstanding: self.outstanding,
        }
    }
}

impl NonFungibleResourceManager {
    /// The issuer of the resource at `address`, after `minted` receipts of
    /// which `outstanding` are not yet burnt.
    pub fn new(address: ResourceAddress, minted: u64, outstanding: u64) -> (r:
        NonFungibleResourceManager)
        ensures
            r@ == (ReceiptIssuer { resource: address@, minted, outstanding }),
    {
        NonFungibleResourceManager { address, minted, outstanding }
    }

    /// The address of the receipts' resource.
    pub fn address(&self) -> (r: ResourceAddress)
        ensures
            r@ == self@.resource,
    {
        self.address
    }

    /// How many receipts were minted so far.
    pub fn minted(&self) -> (r: u64)
        ensures
            r == self@.minted,
    {
        self.minted
    }

    /// How many receipts are outstanding.
    pub fn total_supply(&self) -> (r: u64)
        ensures
            r == self@.outstanding,
    {
        self.outstanding
    }

    /// Whether `receipt` can be one of the issuer's that is outstanding.
    pub fn can_burn(&self, receipt: &FlashloanReceipt) -> (r: bool)
        ensures
            r == self@.can_burn(receipt@),
    {
        self.address.same(&receipt.resource_address) && self.outstanding > 0
    }

    /// Mints the receipt for `data`, numbered with the count of those minted
    /// before it. Where no receipt can be minted, nothing happens.
    pub fn mint_ruid_non_fungible(&mut self, data: FlashloanTerm) -> (r: Option<FlashloanReceipt>)
        ensures
            r is Some <==> old(self)@.can_mint(),
            r matches Some(receipt) ==> receipt@ == (ReceiptView {
                resource: old(self)@.resource,
                local_id: old(self)@.minted,
                loan_amount: data.loan_amount@,
                fee_amount: data.fee_amount@,
            }) && final(self)@ == old(self)@.after_mint(),
            r is None ==> final(self)@ == old(self)@,
    {
        if self.minted == u64::MAX || self.outstanding == u64::MAX {
            None
        } else {
            let receipt = FlashloanReceipt::new(self.address, self.minted, data);
            self.minted = self.minted + 1;
            self.outstanding = self.outstanding + 1;
            Some(receipt)
        }
    }

    /// Burns the receipt and hands out its terms. A receipt that cannot be
    /// one of the issuer's is refused, and the issuer stays as it is.
    pub fn burn(&mut self, receipt: FlashloanReceipt) -> (r: Result<FlashloanTerm, PoolError>)
        ensures
            r is Ok <==> old(self)@.can_burn(receipt@),
            r matches Ok(terms) ==> terms.loan_amount@ == receipt@.loan_amount
                && terms.fee_amount@ == receipt@.fee_amount && final(self)@ == old(
                self,
            )@.after_burn(),
            r matches Err(e) ==> e == PoolError::ResourceMismatch && final(self)@ == old(self)@,
    {
        if self.can_burn(&receipt) {
            self.outstanding = self.outstanding - 1;
            Ok(receipt.terms)
        } else {
            Err(PoolError::ResourceMismatch)
        }
    }
}

} // verus!
