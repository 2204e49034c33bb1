//! Resources and what holds them: addresses, buckets and vaults.
//!
//! A bucket and a vault each record an amount of one fungible resource. The
//! amount is never negative and always a whole number of the resource's
//! smallest units.
use crate::decimal::{decimal_max, Decimal};
use crate::error::PoolError;
use crate::fixed_point::{
    decimal_checked_add, decimal_checked_round, decimal_checked_sub, in_decimal_range,
    is_fungible_amount,
};
use crate::rounding::{is_multiple, unit_step, withdrawal_amount, WithdrawStrategy};
use vstd::arithmetic::div_mod::{lemma_add_mod_noop, lemma_small_mod, lemma_sub_mod_noop};
use vstd::arithmetic::power::lemma_pow_positive;
use vstd::prelude::*;

verus! {

/// The first byte of the address of a fungible resource.
pub const FUNGIBLE_RESOURCE_ENTITY: u8 = 93;

/// The address under which a resource is known.
#[derive(Clone, Copy, Debug, PartialEq, Eq)]
pub struct ResourceAddress {
    /// The entity byte, then the resource's own twenty-nine bytes.
    pub bytes: [u8; 30],
}

impl View for ResourceAddress {
    type V = Seq<u8>;

    open spec fn view(&self) -> Seq<u8> {
        self.bytes@
    }
}

/// Whether the bytes of an address are those of a fungible resource.
pub open spec fn names_fungible(address: Seq<u8>) -> bool {
    address.len() == 30 && address[0] == FUNGIBLE_RESOURCE_ENTITY
}

impl ResourceAddress {
    /// Whether the address is that of a fungible resource.
    pub fn is_fungible(&self) -> (r: bool)
        ensures
            r == names_fungible(self@),
    {
        self.bytes[0] == FUNGIBLE_RESOURCE_ENTITY
    }

    /// Whether both are the same address.
    pub fn same(&self, other: &ResourceAddress) -> (r: bool)
        ensures
            r == (self@ == other@),
    {
        let mut i: usize = 0;
        while i < 30
            invariant
                i <= 30,
                forall|j: int| 0 <= j < i ==> self.bytes@[j] == other.bytes@[j],
            decreases 30 - i,
        {
            if self.bytes[i] != other.bytes[i] {
                return false;
            }
            i = i + 1;
        }
        assert(self.bytes@ =~= other.bytes@);
        true
    }
}

/// The text with which a check on an address is refused: the caller's, or
/// else `fallback`.
pub open spec fn refusal_text(message: Option<String>, fallback: Seq<char>) -> Seq<char> {
    match message {
        Some(text) => text@,
        None => fallback,
    }
}

/// Accepts the address of a fungible resource and refuses any other, with
/// `message` or, where there is none, with "Resource must be fungible".
pub fn assert_fungible_res_address(address: ResourceAddress, message: Option<String>) -> (r:
    Result<(), String>)
    ensures
        r is Ok <==> names_fungible(address@),
        r matches Err(text) ==> text@ == refusal_text(message, "Resource must be fungible"@),
{
    if address.is_fungible() {
        Ok(())
    } else {
        Err(message.unwrap_or("Resource must be fungible".to_owned()))
    }
}

/// Accepts the address of a resource that is not fungible and refuses a
/// fungible one, with `message` or, where there is none, with "Resource must
/// be non fungible".
pub fn assert_non_fungible_res_address(address: ResourceAddress, message: Option<String>) -> (r:
    Result<(), String>)
    ensures
        r is Ok <==> !names_fungible(address@),
        r matches Err(text) ==> text@ == refusal_text(message, "Resource must be non fungible"@),
{
    if !address.is_fungible() {
        Ok(())
    } else {
        Err(message.unwrap_or("Resource must be non fungible".to_owned()))
    }
}

/// An amount of one fungible resource, as a bucket or a vault records it.
pub struct Fungible {
    /// The resource's address.
    pub resource: Seq<u8>,
    /// The decimal places of the resource's smallest unit.
    pub divisibility: u8,
    /// The attos held.
    pub amount: int,
}

/// The attos that leave `held` attos of a resource with `divisibility`
/// decimal places when `amount` is asked for under `strategy`: the amount,
/// rounded where the strategy says so, if it is one that the resource can
/// hold and no more than is held.
pub open spec fn withdrawn(held: int, divisibility: u8, amount: int, strategy: WithdrawStrategy)
    -> Result<int, PoolError> {
    let step = unit_step(divisibility);
    let asked = withdrawal_amount(amount, step, strategy);
    if !in_decimal_range(asked) {
        Err(PoolError::Arithmetic)
    } else if asked < 0 || !is_multiple(asked, step) {
        Err(PoolError::InvalidAmount)
    } else if asked > held {
        Err(PoolError::InsufficientLiquidity)
    } else {
        Ok(asked)
    }
}

impl Fungible {
    /// Whether the amount is one that the resource can hold.
    pub open spec fn wf(self) -> bool {
        &&& self.divisibility <= 18
        &&& 0 <= self.amount <= decimal_max()
        &&& is_multiple(self.amount, unit_step(self.divisibility))
    }

    /// The same resource with another amount.
    pub open spec fn with_amount(self, amount: int) -> Fungible {
        Fungible { amount, ..self }
    }

    /// Whether both are of the same resource.
    pub open spec fn same_resource(self, other: Fungible) -> bool {
        self.resource == other.resource && self.divisibility == other.divisibility
    }

    /// The attos that leave a holding of `self` when `amount` is asked for
    /// under `strategy`, as [`withdrawn`] says.
    pub open spec fn taken(self, amount: int, strategy: WithdrawStrategy) -> Result<
        int,
        PoolError,
    > {
        withdrawn(self.amount, self.divisibility, amount, strategy)
    }

    /// What a holding of `self` is after `other` was put into it.
    pub open spec fn received(self, other: Fungible) -> Result<Fungible, PoolError> {
        if !self.same_resource(other) {
            Err(PoolError::ResourceMismatch)
        } else if !in_decimal_range(self.amount + other.amount) {
            Err(PoolError::Arithmetic)
        } else {
            Ok(self.with_amount(self.amount + other.amount))
        }
    }
}

/// The smallest unit of a resource is at least one atto.
pub proof fn lemma_unit_step_positive(divisibility: u8)
    requires
        divisibility <= 18,
    ensures
        unit_step(divisibility) >= 1,
{
    lemma_pow_positive(10, (18 - divisibility) as nat);
}

/// The sum and the difference of two whole numbers of steps are whole
/// numbers of steps.
pub proof fn lemma_multiples_add_sub(a: int, b: int, step: int)
    requires
        step >= 1,
        is_multiple(a, step),
        is_multiple(b, step),
    ensures
        is_multiple(a + b, step),
        is_multiple(a - b, step),
{
    lemma_add_mod_noop(a, b, step);
    lemma_sub_mod_noop(a, b, step);
    lemma_small_mod(0, step as nat);
}

/// Takes `amount` out of `held` attos of a resource, as [`withdrawn`] says:
/// what was taken, then what is left.
fn withdraw(held: Decimal, divisibility: u8, amount: Decimal, strategy: WithdrawStrategy) -> (r:
    Result<(Decimal, Decimal), PoolError>)
    requires
        divisibility <= 18,
        0 <= held@,
        is_multiple(held@, unit_step(divisibility)),
    ensures
        match withdrawn(held@, divisibility, amount@, strategy) {
            Ok(asked) => r matches Ok(pair) && pair.0@ == asked && pair.1@ == held@ - asked && 0
                <= asked <= held@ && is_multiple(asked, unit_step(divisibility)) && is_multiple(
                held@ - asked,
                unit_step(divisibility),
            ),
            Err(e) => r matches Err(err) && err == e,
        },
{
    let asked = match strategy {
        WithdrawStrategy::Exact => amount,
        WithdrawStrategy::Rounded(mode) => match decimal_checked_round(amount, divisibility, mode) {
            Some(rounded) => rounded,
            None => {
                return Err(PoolError::Arithmetic);
            },
        },
    };
    if !is_fungible_amount(asked, divisibility) {
        return Err(PoolError::InvalidAmount);
    }
    if held.lt(&asked) {
        return Err(PoolError::InsufficientLiquidity);
    }
    proof {
        lemma_unit_step_positive(divisibility);
        lemma_multiples_add_sub(held@, asked@, unit_step(divisibility));
    }
    match decimal_checked_sub(held, asked) {
        Some(left) => Ok((asked, left)),
        None => Err(PoolError::Arithmetic),
    }
}

/// An amount of a fungible resource on its way from one holder to another.
#[derive(Debug)]
pub struct Bucket {
    resource_address: ResourceAddress,
    divisibility: u8,
    amount: Decimal,
}

impl View for Bucket {
    type V = Fungible;

    closed spec fn view(&self) -> Fungible {
        Fungible {
            resource: self.resource_address@,
            divisibility: self.divisibility,
            amount: self.amount@,
        }
    }
}

impl Bucket {
    /// Whether the bucket holds an amount that its resource can hold.
    pub open spec fn wf(&self) -> bool {
        self@.wf()
    }

    /// A bucket of `amount` of the resource at `resource_address`, whose
    /// smallest unit has `divisibility` decimal places; nothing where the
    /// divisibility is above eighteen or the resource cannot hold the amount.
    pub fn new(resource_address: ResourceAddress, divisibility: u8, amount: Decimal) -> (r: Option<
        Bucket,
    >)
        ensures
            r is Some <==> (Fungible {
                resource: resource_address@,
                divisibility,
                amount: amount@,
            }).wf(),
            r matches Some(bucket) ==> bucket.wf() && bucket@ == (Fungible {
                resource: resource_address@,
                divisibility,
                amount: amount@,
            }),
    {
        if divisibility > 18 {
            None
        } else if !is_fungible_amount(amount, divisibility) {
            None
        } else {
            Some(Bucket { resource_address, divisibility, amount })
        }
    }

    /// The address of the bucket's resource.
    pub fn resource_address(&self) -> (r: ResourceAddress)
        ensures
            r@ == self@.resource,
    {
        self.resource_address
    }

    /// The decimal places of the smallest unit of the bucket's resource.
    pub fn divisibility(&self) -> (r: u8)
        ensures
            r == self@.divisibility,
    {
        self.divisibility
    }

    /// The amount in the bucket.
    pub fn amount(&self) -> (r: Decimal)
        ensures
            r@ == self@.amount,
    {
        self.amount
    }

    /// Takes `amount` out of the bucket into a new one, rounded where the
    /// strategy says so. Where that cannot be done the bucket stays as it is.
    pub fn take_advanced(&mut self, amount: Decimal, strategy: WithdrawStrategy) -> (r: Result<
        Bucket,
        PoolError,
    >)
        requires
            old(self).wf(),
        ensures
            final(self).wf(),
            match old(self)@.taken(amount@, strategy) {
                Ok(asked) => r matches Ok(taken) && taken.wf() && taken@ == old(self)@.with_amount(
                    asked,
                ) && final(self)@ == old(self)@.with_amount(old(self)@.amount - asked),
                Err(e) => r matches Err(err) && err == e && final(self)@ == old(self)@,
            },
    {
        match withdraw(self.amount, self.divisibility, amount, strategy) {
            Ok((asked, left)) => {
                self.amount = left;
                Ok(
                    Bucket {
                        resource_address: self.resource_address,
                        divisibility: self.divisibility,
                        amount: asked,
                    },
                )
            },
            Err(e) => Err(e),
        }
    }
}

/// The custody of one fungible resource.
#[derive(Clone, Copy, Debug)]
pub struct Vault {
    resource_address: ResourceAddress,
    divisibility: u8,
    balance: Decimal,
}

impl View for Vault {
    type V = Fungible;

    closed spec fn view(&self) -> Fungible {
        Fungible {
            resource: self.resource_address@,
            divisibility: self.divisibility,
            amount: self.balance@,
        }
    }
}

impl Vault {
    /// Whether the vault holds an amount that its resource can hold.
    pub open spec fn wf(&self) -> bool {
        self@.wf()
    }

    /// An empty vault for the resource at `resource_address`, whose smallest
    /// unit has `divisibility` decimal places; nothing where the divisibility
    /// is above eighteen.
    pub fn new(resource_address: ResourceAddress, divisibility: u8) -> (r: Option<Vault>)
        ensures
            r is Some <==> divisibility <= 18,
            r matches Some(vault) ==> vault.wf() && vault@ == (Fungible {
                resource: resource_address@,
                divisibility,
                amount: 0,
            }),
    {
        if divisibility > 18 {
            None
        } else {
            proof {
                lemma_unit_step_positive(divisibility);
                lemma_small_mod(0, unit_step(divisibility) as nat);
            }
            Some(Vault { resource_address, divisibility, balance: Decimal::zero() })
        }
    }

    /// A vault that already holds what `bucket` brings.
    pub fn with_bucket(bucket: Bucket) -> (r: Vault)
        requires
            bucket.wf(),
        ensures
            r.wf(),
            r@ == bucket@,
    {
        Vault {
            resource_address: bucket.resource_address,
            divisibility: bucket.divisibility,
            balance: bucket.amount,
        }
    }

    /// The address of the vault's resource.
    pub fn resource_address(&self) -> (r: ResourceAddress)
        ensures
            r@ == self@.resource,
    {
        self.resource_address
    }

    /// The decimal places of the smallest unit of the vault's resource.
    pub fn divisibility(&self) -> (r: u8)
        ensures
            r == self@.divisibility,
    {
        self.divisibility
    }

    /// The amount in the vault.
    pub fn amount(&self) -> (r: Decimal)
        ensures
            r@ == self@.amount,
    {
        self.balance
    }

    /// Whether `bucket` is of the vault's resource.
    pub fn accepts(&self, bucket: &Bucket) -> (r: bool)
        ensures
            r == self@.same_resource(bucket@),
    {
        self.resource_address.same(&bucket.resource_address) && self.divisibility
            == bucket.divisibility
    }

    /// Puts the bucket's amount into the vault. A bucket of another resource,
    /// or one that would lift the balance out of range, is refused and the
    /// vault stays as it is.
    pub fn put(&mut self, bucket: Bucket) -> (r: Result<(), PoolError>)
        requires
            old(self).wf(),
            bucket.wf(),
        ensures
            final(self).wf(),
            match old(self)@.received(bucket@) {
                Ok(after) => r is Ok && final(self)@ == after,
                Err(e) => r matches Err(err) && err == e && final(self)@ == old(self)@,
            },
    {
        if !self.accepts(&bucket) {
            return Err(PoolError::ResourceMismatch);
        }
        match decimal_checked_add(self.balance, bucket.amount) {
            Some(sum) => {
                proof {
                    lemma_unit_step_positive(self.divisibility);
                    lemma_multiples_add_sub(
                        self.balance@,
                        bucket.amount@,
                        unit_step(self.divisibility),
                    );
                }
                self.balance = sum;
                Ok(())
            },
            None => Err(PoolError::Arithmetic),
        }
    }

    /// Takes `amount` out of the vault into a bucket, rounded where the
    /// strategy says so. Where that cannot be done the vault stays as it is.
    pub fn take_advanced(&mut self, amount: Decimal, strategy: WithdrawStrategy) -> (r: Result<
        Bucket,
        PoolError,
    >)
        requires
            old(self).wf(),
        ensures
            final(self).wf(),
            match old(self)@.taken(amount@, strategy) {
                Ok(asked) => r matches Ok(taken) && taken.wf() && taken@ == old(self)@.with_amount(
                    asked,
                ) && final(self)@ == old(self)@.with_amount(old(self)@.amount - asked),
                Err(e) => r matches Err(err) && err == e && final(self)@ == old(self)@,
            },
    {
        match withdraw(self.balance, self.divisibility, amount, strategy) {
            Ok((asked, left)) => {
                self.balance = left;
                Ok(
                    Bucket {
                        resource_address: self.resource_address,
                        divisibility: self.divisibility,
                        amount: asked,
                    },
                )
            },
            Err(e) => Err(e),
        }
    }
}

} // verus!
