//! Fixed-point representation of money.

use vstd::prelude::*;

verus! {

/// Largest number of units a `Moneys` may hold: 10^14 units, that is
/// 10^10 whole currency units. The bound keeps every sum of two values
/// exactly representable well inside 64 bits.
pub const MAX_UNITS: u64 = 100_000_000_000_000;

/// A money amount stored as an integer count of 10^-4 currency units.
///
/// Every valid value satisfies `0 <= units <= MAX_UNITS`; arithmetic
/// reports a range failure instead of leaving that range.
#[derive(Debug, Clone, Copy, PartialEq, Eq, Structural)]
pub struct Moneys(pub u64);

/// Failures of bounded money arithmetic.
#[derive(Debug, Clone, Copy, PartialEq, Eq, Structural)]
pub enum MoneyError {
    /// A sum left the representable range.
    RangeOverflow,
    /// A difference would have been negative.
    RangeUnderflow,
}

/// What `Moneys::add` returns, stated as a value.
pub open spec fn spec_add(a: Moneys, b: Moneys) -> Result<Moneys, MoneyError> {
    if a.0 + b.0 <= MAX_UNITS {
        Ok(Moneys((a.0 + b.0) as u64))
    } else {
        Err(MoneyError::RangeOverflow)
    }
}

/// What `Moneys::sub` returns, stated as a value.
pub open spec fn spec_sub(a: Moneys, b: Moneys) -> Result<Moneys, MoneyError> {
    if a.0 >= b.0 {
        Ok(Moneys((a.0 - b.0) as u64))
    } else {
        Err(MoneyError::RangeUnderflow)
    }
}

/// Addition of representable amounts is exact whenever the sum stays in
/// range: the unit counts simply add, nothing is rounded or lost.
pub proof fn lemma_add_exact(a: Moneys, b: Moneys)
    requires
        a.valid(),
        b.valid(),
        a.0 + b.0 <= MAX_UNITS,
    ensures
        spec_add(a, b) == Ok::<Moneys, MoneyError>(Moneys((a.0 + b.0) as u64)),
        spec_add(a, b)->Ok_0.valid(),
{
}

impl Moneys {
    /// The representation invariant: the unit count stays in range.
    pub open spec fn valid(self) -> bool {
        self.0 <= MAX_UNITS
    }

    pub fn new(units: u64) -> (r: Self)
        requires
            units <= MAX_UNITS,
        ensures
            r.0 == units,
    {
        Moneys(units)
    }

    /// The zero amount.
    pub fn zero() -> (r: Self)
        ensures
            r.0 == 0,
    {
        Moneys(0)
    }

    /// The largest representable amount.
    pub fn max() -> (r: Self)
        ensures
            r.0 == MAX_UNITS,
    {
        Moneys(MAX_UNITS)
    }

    /// Exact bounded addition: the unit counts add, or the sum is
    /// reported as out of range.
    pub fn add(&self, other: Self) -> (r: Result<Self, MoneyError>)
        requires
            self.valid(),
            other.valid(),
        ensures
            r == spec_add(*self, other),
    {
        let sum = self.0 + other.0;
        if sum > MAX_UNITS {
            Err(MoneyError::RangeOverflow)
        } else {
            Ok(Moneys(sum))
        }
    }

    /// Exact bounded subtraction: the unit counts subtract, or the
    /// difference is reported as negative.
    pub fn sub(&self, other: Self) -> (r: Result<Self, MoneyError>)
        ensures
            r == spec_sub(*self, other),
    {
        if self.0 < other.0 {
            Err(MoneyError::RangeUnderflow)
        } else {
            Ok(Moneys(self.0 - other.0))
        }
    }

    /// Strict order on unit counts.
    pub fn less_than(&self, other: Self) -> (r: bool)
        ensures
            r == (self.0 < other.0),
    {
        self.0 < other.0
    }

    /// The raw unit count.
    pub fn units(&self) -> (r: u64)
        ensures
            r == self.0,
    {
        self.0
    }
}

} // verus!
