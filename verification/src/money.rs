//! Exact fixed-point representations of money amounts and marginal rates.
//!
//! A [`Money`] value is a signed count of ten-thousandths of a currency unit
//! (four fractional decimal digits), a [`Rate`] is an unsigned count of
//! ten-thousandths (so `0.15` is stored as `1500`), and a [`TaxAmount`] is a
//! signed count of hundred-millionths of a currency unit (eight fractional
//! digits), which is exactly the resolution of a money amount multiplied by
//! a rate. All three are plain scaled integers, so sums and products of them
//! are exact; nothing in this crate goes through binary floating point.

use vstd::prelude::*;

verus! {

/// Scaling factor of [`Money`] and [`Rate`]: ten-thousandths of a unit.
pub const MONEY_SCALE: i128 = 10_000;

/// Largest mantissa a well-formed [`Money`] may carry (10^18, that is
/// 10^14 whole currency units). The bound leaves enough headroom in `i128`
/// for every sum and product the library forms.
pub const MONEY_MAX_MANTISSA: i128 = 1_000_000_000_000_000_000;

/// Largest whole-unit amount representable as a well-formed [`Money`].
pub const MONEY_MAX_UNITS: i64 = 100_000_000_000_000;

/// Largest mantissa a well-formed [`Rate`] may carry (10^12, that is a
/// rate of 10^8). Every whole-number percentage that fits in `u32`
/// converts to a well-formed rate.
pub const RATE_MAX_MANTISSA: u64 = 1_000_000_000_000;

/// Scaling factor of [`TaxAmount`]: hundred-millionths of a unit.
pub const TAX_SCALE: i128 = 100_000_000;

/// Largest mantissa a well-formed [`TaxAmount`] may carry (10^37).
pub const TAX_MAX_MANTISSA: i128 = 10_000_000_000_000_000_000_000_000_000_000_000_000;

/// A money amount: a signed decimal with four fractional digits, stored as
/// a scaled `i128` mantissa. The mathematical value is `self@ / 10^4`
/// currency units.
#[derive(Clone, Copy, Debug, PartialEq, Eq, Structural)]
pub struct Money {
    mantissa: i128,
}

impl View for Money {
    type V = int;

    closed spec fn view(&self) -> int {
        self.mantissa as int
    }
}

impl Money {
    /// A money amount is well formed when its mantissa stays within the
    /// range every constructor of this crate establishes.
    pub open spec fn wf(self) -> bool {
        -(MONEY_MAX_MANTISSA as int) <= self@ <= MONEY_MAX_MANTISSA as int
    }

    /// Builds an amount from a raw scaled mantissa, in ten-thousandths of a
    /// currency unit.
    pub fn from_scaled(mantissa: i128) -> (r: Money)
        requires
            -(MONEY_MAX_MANTISSA as int) <= mantissa <= MONEY_MAX_MANTISSA as int,
        ensures
            r@ == mantissa,
            r.wf(),
    {
        Money { mantissa }
    }

    /// Builds an amount from a count of whole currency units.
    pub fn from_units(units: i64) -> (r: Money)
        requires
            -(MONEY_MAX_UNITS as int) <= units <= MONEY_MAX_UNITS as int,
        ensures
            r@ == units * MONEY_SCALE,
            r.wf(),
    {
        Money { mantissa: (units as i128) * MONEY_SCALE }
    }

    /// The zero amount.
    pub fn zero() -> (r: Money)
        ensures
            r@ == 0,
            r.wf(),
    {
        Money { mantissa: 0 }
    }

    /// The raw scaled mantissa, in ten-thousandths of a currency unit.
    pub fn mantissa(&self) -> (m: i128)
        ensures
            m == self@,
    {
        self.mantissa
    }

    /// Builds an amount from a raw scaled mantissa without a range bound.
    /// Derived sums such as a deduction total may exceed the well-formed
    /// range, so this constructor promises nothing beyond the exact value.
    pub(crate) fn from_scaled_wide(mantissa: i128) -> (r: Money)
        ensures
            r@ == mantissa,
    {
        Money { mantissa }
    }
}

/// A marginal tax rate: an unsigned decimal with four fractional digits,
/// stored as a scaled `u64` mantissa. The mathematical value is
/// `self@ / 10^4`, so `1500` stands for a rate of `0.15`.
#[derive(Clone, Copy, Debug, PartialEq, Eq, Structural)]
pub struct Rate {
    mantissa: u64,
}

impl View for Rate {
    type V = int;

    closed spec fn view(&self) -> int {
        self.mantissa as int
    }
}

impl Rate {
    /// A rate is well formed when its mantissa stays within the range every
    /// constructor of this crate establishes. Rates are never negative.
    pub open spec fn wf(self) -> bool {
        0 <= self@ <= RATE_MAX_MANTISSA as int
    }

    /// Builds the rate `percent / 100`, exactly: the percentage is scaled
    /// in integers, never converted through floating point.
    pub fn from_percent(percent: u32) -> (r: Rate)
        ensures
            r@ == percent * 100,
            r.wf(),
    {
        Rate { mantissa: (percent as u64) * 100 }
    }

    /// Builds a rate from a raw scaled mantissa, in ten-thousandths:
    /// `from_scaled(1500)` is the rate `0.15`.
    pub fn from_scaled(mantissa: u64) -> (r: Rate)
        requires
            mantissa <= RATE_MAX_MANTISSA,
        ensures
            r@ == mantissa,
            r.wf(),
    {
        Rate { mantissa }
    }

    /// The raw scaled mantissa, in ten-thousandths.
    pub fn mantissa(&self) -> (m: u64)
        ensures
            m == self@,
    {
        self.mantissa
    }
}

/// A computed tax liability: a signed decimal with eight fractional digits,
/// stored as a scaled `i128` mantissa. The mathematical value is
/// `self@ / 10^8` currency units; eight digits is exactly the resolution of
/// a money amount multiplied by a rate, so a computed tax is always exact.
#[derive(Clone, Copy, Debug, PartialEq, Eq, Structural)]
pub struct TaxAmount {
    mantissa: i128,
}

impl View for TaxAmount {
    type V = int;

    closed spec fn view(&self) -> int {
        self.mantissa as int
    }
}

impl TaxAmount {
    /// A tax amount is well formed when its mantissa stays within the range
    /// every constructor of this crate establishes.
    pub open spec fn wf(self) -> bool {
        -(TAX_MAX_MANTISSA as int) <= self@ <= TAX_MAX_MANTISSA as int
    }

    /// Builds a tax amount from a raw scaled mantissa, in hundred-millionths
    /// of a currency unit.
    pub fn from_scaled(mantissa: i128) -> (r: TaxAmount)
        requires
            -(TAX_MAX_MANTISSA as int) <= mantissa <= TAX_MAX_MANTISSA as int,
        ensures
            r@ == mantissa,
            r.wf(),
    {
        TaxAmount { mantissa }
    }

    /// Builds a tax amount from a count of whole currency units.
    pub fn from_units(units: i64) -> (r: TaxAmount)
        requires
            -(MONEY_MAX_UNITS as int) <= units <= MONEY_MAX_UNITS as int,
        ensures
            r@ == units * TAX_SCALE,
            r.wf(),
    {
        TaxAmount { mantissa: (units as i128) * TAX_SCALE }
    }

    /// The raw scaled mantissa, in hundred-millionths of a currency unit.
    pub fn mantissa(&self) -> (m: i128)
        ensures
            m == self@,
    {
        self.mantissa
    }
}

} // verus!
