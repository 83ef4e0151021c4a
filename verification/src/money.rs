//! Exact fixed-point money values.
//!
//! A `Money` value is a signed count of ten-thousandths of the currency
//! unit, so every value carries four fractional digits exactly.
//! Addition, subtraction and comparison are exact integer operations on
//! that count: there is no rounding drift.

use vstd::prelude::*;

verus! {

/// Number of fractional decimal digits a `Money` value carries.
pub const FRACTIONAL_DIGITS: u32 = 4;

/// An exact decimal amount of currency, stored as a signed number of
/// ten-thousandths (four fractional digits).
#[derive(Debug, Clone, Copy, PartialEq, Eq, Structural)]
pub struct Money {
    units: i128,
}

impl View for Money {
    type V = int;

    /// A `Money` value is modelled as its signed count of ten-thousandths.
    closed spec fn view(&self) -> int {
        self.units as int
    }
}

impl Money {
    /// The zero amount.
    pub fn zero() -> (r: Money)
        ensures
            r@ == 0,
    {
        Money { units: 0 }
    }

    /// Builds an amount from a signed count of ten-thousandths of the
    /// currency unit (`12_345` is `1.2345`).
    pub fn from_units(units: i128) -> (r: Money)
        ensures
            r@ == units,
    {
        Money { units }
    }

    /// The signed count of ten-thousandths this amount stands for.
    pub fn units(&self) -> (r: i128)
        ensures
            r == self@,
    {
        self.units
    }

    /// Exact addition.
    pub fn add(&self, other: &Money) -> (r: Money)
        requires
            i128::MIN <= self@ + other@ <= i128::MAX,
        ensures
            r@ == self@ + other@,
    {
        Money { units: self.units + other.units }
    }

    /// Exact subtraction.
    pub fn sub(&self, other: &Money) -> (r: Money)
        requires
            i128::MIN <= self@ - other@ <= i128::MAX,
        ensures
            r@ == self@ - other@,
    {
        Money { units: self.units - other.units }
    }

    /// Strict ordered comparison.
    pub fn lt(&self, other: &Money) -> (r: bool)
        ensures
            r == (self@ < other@),
    {
        self.units < other.units
    }

    /// Whether this amount is strictly below zero.
    pub fn is_negative(&self) -> (r: bool)
        ensures
            r == (self@ < 0),
    {
        self.units < 0
    }
}

} // verus!
