//! Fixed-point numbers as plain machine words.
//!
//! A [`Decimal`] counts attos (units of `10^-18`) in a signed 192-bit integer;
//! a [`PreciseDecimal`] counts subunits of `10^-36` in a signed 256-bit
//! integer. Both keep the integer as little-endian 64-bit digits in two's
//! complement, and their views are the integers themselves.
use vstd::prelude::*;

verus! {

/// `2^64`, the weight of one digit.
pub open spec fn digit_base() -> int {
    0x1_0000_0000_0000_0000
}

/// `2^63`, the digit value from which the top digit carries the sign.
pub open spec fn sign_digit() -> int {
    0x8000_0000_0000_0000
}

/// `2^192`.
pub open spec fn decimal_modulus() -> int {
    digit_base() * digit_base() * digit_base()
}

/// `2^256`.
pub open spec fn precise_modulus() -> int {
    digit_base() * digit_base() * digit_base() * digit_base()
}

/// The largest number of attos a [`Decimal`] holds, `2^191 - 1`.
pub open spec fn decimal_max() -> int {
    0x7fff_ffff_ffff_ffff_ffff_ffff_ffff_ffff_ffff_ffff_ffff_ffffint
}

/// The smallest number of attos a [`Decimal`] holds, `-2^191`.
pub open spec fn decimal_min() -> int {
    -0x8000_0000_0000_0000_0000_0000_0000_0000_0000_0000_0000_0000int
}

/// The largest number of subunits a [`PreciseDecimal`] holds, `2^255 - 1`.
pub open spec fn precise_max() -> int {
    0x7fff_ffff_ffff_ffff_ffff_ffff_ffff_ffff_ffff_ffff_ffff_ffff_ffff_ffff_ffff_ffffint
}

/// The smallest number of subunits a [`PreciseDecimal`] holds, `-2^255`.
pub open spec fn precise_min() -> int {
    -0x8000_0000_0000_0000_0000_0000_0000_0000_0000_0000_0000_0000_0000_0000_0000_0000int
}

/// Attos in one whole unit, `10^18`.
pub open spec fn attos_per_unit() -> int {
    1_000_000_000_000_000_000
}

/// Subunits of a [`PreciseDecimal`] in one atto, `10^18`.
pub open spec fn subunits_per_atto() -> int {
    1_000_000_000_000_000_000
}

/// Subunits of a [`PreciseDecimal`] in one whole unit, `10^36`.
pub open spec fn subunits_per_unit() -> int {
    1_000_000_000_000_000_000_000_000_000_000_000_000
}

/// A signed fixed-point number with eighteen decimal places.
#[derive(Clone, Copy, Debug, PartialEq, Eq)]
pub struct Decimal {
    /// The attos in two's complement, least significant digit first.
    pub digits: [u64; 3],
}

/// A signed fixed-point number with thirty-six decimal places.
#[derive(Clone, Copy, Debug, PartialEq, Eq)]
pub struct PreciseDecimal {
    /// The subunits in two's complement, least significant digit first.
    pub digits: [u64; 4],
}

impl View for Decimal {
    type V = int;

    /// The number of attos.
    open spec fn view(&self) -> int {
        let raw = self.digits[0] as int + self.digits[1] as int * digit_base()
            + self.digits[2] as int * digit_base() * digit_base();
        if self.digits[2] as int >= sign_digit() {
            raw - decimal_modulus()
        } else {
            raw
        }
    }
}

impl View for PreciseDecimal {
    type V = int;

    /// The number of subunits.
    open spec fn view(&self) -> int {
        let raw = self.digits[0] as int + self.digits[1] as int * digit_base()
            + self.digits[2] as int * digit_base() * digit_base()
            + self.digits[3] as int * digit_base() * digit_base() * digit_base();
        if self.digits[3] as int >= sign_digit() {
            raw - precise_modulus()
        } else {
            raw
        }
    }
}

impl Decimal {
    /// Zero.
    pub fn zero() -> (r: Decimal)
        ensures
            r@ == 0,
    {
        Decimal { digits: [0, 0, 0] }
    }

    /// One whole unit.
    pub fn one() -> (r: Decimal)
        ensures
            r@ == attos_per_unit(),
    {
        Decimal { digits: [1_000_000_000_000_000_000, 0, 0] }
    }

    /// The value of `units` whole units.
    pub fn from_u64(units: u64) -> (r: Decimal)
        ensures
            r@ == units * attos_per_unit(),
    {
        let wide: u128 = (units as u128) * 1_000_000_000_000_000_000u128;
        let low: u64 = (wide % 0x1_0000_0000_0000_0000u128) as u64;
        let high: u64 = (wide / 0x1_0000_0000_0000_0000u128) as u64;
        Decimal { digits: [low, high, 0] }
    }

    /// The value of `attos` attos.
    pub fn from_attos(attos: i128) -> (r: Decimal)
        ensures
            r@ == attos,
    {
        if attos >= 0 {
            let wide: u128 = attos as u128;
            let low: u64 = (wide % 0x1_0000_0000_0000_0000u128) as u64;
            let high: u64 = (wide / 0x1_0000_0000_0000_0000u128) as u64;
            Decimal { digits: [low, high, 0] }
        } else {
            // The low 128 bits of the two's complement pattern are `attos + 2^128`.
            let lifted: u128 = (attos - i128::MIN) as u128;
            let wide: u128 = lifted + 0x8000_0000_0000_0000_0000_0000_0000_0000u128;
            let low: u64 = (wide % 0x1_0000_0000_0000_0000u128) as u64;
            let high: u64 = (wide / 0x1_0000_0000_0000_0000u128) as u64;
            Decimal { digits: [low, high, 0xffff_ffff_ffff_ffff] }
        }
    }

    /// Whether the value is below zero.
    pub fn is_negative(&self) -> (r: bool)
        ensures
            r == (self@ < 0),
    {
        self.digits[2] >= 0x8000_0000_0000_0000u64
    }

    /// Whether the value is zero.
    pub fn is_zero(&self) -> (r: bool)
        ensures
            r == (self@ == 0),
    {
        self.digits[0] == 0 && self.digits[1] == 0 && self.digits[2] == 0
    }

    /// Whether the value is above zero.
    pub fn is_positive(&self) -> (r: bool)
        ensures
            r == (self@ > 0),
    {
        !self.is_negative() && !self.is_zero()
    }

    /// Whether both hold the same number of attos.
    pub fn same(&self, other: &Decimal) -> (r: bool)
        ensures
            r == (self@ == other@),
    {
        self.digits[0] == other.digits[0] && self.digits[1] == other.digits[1] && self.digits[2]
            == other.digits[2]
    }

    /// Whether `self` is strictly less than `other`.
    pub fn lt(&self, other: &Decimal) -> (r: bool)
        ensures
            r == (self@ < other@),
    {
        let self_negative = self.is_negative();
        let other_negative = other.is_negative();
        if self_negative != other_negative {
            self_negative
        } else if self.digits[2] != other.digits[2] {
            self.digits[2] < other.digits[2]
        } else if self.digits[1] != other.digits[1] {
            self.digits[1] < other.digits[1]
        } else {
            self.digits[0] < other.digits[0]
        }
    }

    /// Whether `self` is at most `other`.
    pub fn le(&self, other: &Decimal) -> (r: bool)
        ensures
            r == (self@ <= other@),
    {
        !other.lt(self)
    }
}

impl PreciseDecimal {
    /// Zero.
    pub fn zero() -> (r: PreciseDecimal)
        ensures
            r@ == 0,
    {
        PreciseDecimal { digits: [0, 0, 0, 0] }
    }

    /// One whole unit.
    pub fn one() -> (r: PreciseDecimal)
        ensures
            r@ == subunits_per_unit(),
    {
        PreciseDecimal { digits: [12919594847110692864, 54210108624275221, 0, 0] }
    }

    /// The value of `subunits` subunits of `10^-36`.
    pub fn from_subunits(subunits: i128) -> (r: PreciseDecimal)
        ensures
            r@ == subunits,
    {
        if subunits >= 0 {
            let wide: u128 = subunits as u128;
            let low: u64 = (wide % 0x1_0000_0000_0000_0000u128) as u64;
            let high: u64 = (wide / 0x1_0000_0000_0000_0000u128) as u64;
            PreciseDecimal { digits: [low, high, 0, 0] }
        } else {
            // The low 128 bits of the two's complement pattern are `subunits + 2^128`.
            let lifted: u128 = (subunits - i128::MIN) as u128;
            let wide: u128 = lifted + 0x8000_0000_0000_0000_0000_0000_0000_0000u128;
            let low: u64 = (wide % 0x1_0000_0000_0000_0000u128) as u64;
            let high: u64 = (wide / 0x1_0000_0000_0000_0000u128) as u64;
            PreciseDecimal { digits: [low, high, 0xffff_ffff_ffff_ffff, 0xffff_ffff_ffff_ffff] }
        }
    }

    /// Whether the value is below zero.
    pub fn is_negative(&self) -> (r: bool)
        ensures
            r == (self@ < 0),
    {
        self.digits[3] >= 0x8000_0000_0000_0000u64
    }

    /// Whether the value is zero.
    pub fn is_zero(&self) -> (r: bool)
        ensures
            r == (self@ == 0),
    {
        self.digits[0] == 0 && self.digits[1] == 0 && self.digits[2] == 0 && self.digits[3] == 0
    }

    /// Whether both hold the same number of subunits.
    pub fn same(&self, other: &PreciseDecimal) -> (r: bool)
        ensures
            r == (self@ == other@),
    {
        self.digits[0] == other.digits[0] && self.digits[1] == other.digits[1] && self.digits[2]
            == other.digits[2] && self.digits[3] == other.digits[3]
    }
}

} // verus!
