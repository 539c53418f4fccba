//! Fixed-point non-negative monetary quantities.
//!
//! An [`Amount`] counts raw units of `1 / UNIT` tokens, so one whole
//! token is `UNIT` units. All arithmetic saturates at zero and at
//! `u64::MAX` instead of wrapping or panicking.

use vstd::prelude::*;

verus! {

/// Number of raw units in one whole token: amounts carry six
/// fractional decimal digits.
pub const UNIT: u64 = 1_000_000;

/// `a + b` clamped to the `u64` range from above.
pub open spec fn sat_add_units(a: int, b: int) -> int {
    if a + b <= u64::MAX { a + b } else { u64::MAX as int }
}

/// `a - b` clamped to zero from below.
pub open spec fn sat_sub_units(a: int, b: int) -> int {
    if a - b >= 0 { a - b } else { 0 }
}

/// The raw unit counts of a sequence of amounts, as mathematical
/// integers.
pub open spec fn units_of(rs: Seq<Amount>) -> Seq<int> {
    rs.map(|i: int, a: Amount| a.units as int)
}

/// A non-negative fixed-point monetary quantity.
#[derive(Clone, Copy, Debug, PartialEq, Eq, Structural)]
pub struct Amount {
    /// Raw units of `1 / UNIT` tokens.
    pub units: u64,
}

impl Amount {
    /// The quantity as a mathematical integer, in raw units.
    pub open spec fn as_int(self) -> int {
        self.units as int
    }

    pub fn zero() -> (r: Amount)
        ensures
            r.units == 0,
    {
        Amount { units: 0 }
    }

    pub fn from_units(units: u64) -> (r: Amount)
        ensures
            r.units == units,
    {
        Amount { units }
    }

    /// Scales a whole-token count into units.
    pub fn from_tokens(tokens: u64) -> (r: Amount)
        requires
            tokens * UNIT <= u64::MAX,
        ensures
            r.units == tokens * UNIT,
    {
        Amount { units: tokens * UNIT }
    }

    pub fn is_zero(self) -> (r: bool)
        ensures
            r == (self.units == 0),
    {
        self.units == 0
    }

    pub fn le(self, other: Amount) -> (r: bool)
        ensures
            r == (self.units <= other.units),
    {
        self.units <= other.units
    }

    pub fn lt(self, other: Amount) -> (r: bool)
        ensures
            r == (self.units < other.units),
    {
        self.units < other.units
    }

    pub fn saturating_add(self, other: Amount) -> (r: Amount)
        ensures
            r.units == sat_add_units(self.as_int(), other.as_int()),
    {
        if self.units <= u64::MAX - other.units {
            Amount { units: self.units + other.units }
        } else {
            Amount { units: u64::MAX }
        }
    }

    pub fn saturating_sub(self, other: Amount) -> (r: Amount)
        ensures
            r.units == sat_sub_units(self.as_int(), other.as_int()),
    {
        if self.units >= other.units {
            Amount { units: self.units - other.units }
        } else {
            Amount { units: 0 }
        }
    }

    pub fn checked_add(self, other: Amount) -> (r: Option<Amount>)
        ensures
            self.as_int() + other.as_int() <= u64::MAX ==> r == Some(
                Amount { units: (self.units + other.units) as u64 },
            ),
            self.as_int() + other.as_int() > u64::MAX ==> r is None,
    {
        if self.units <= u64::MAX - other.units {
            Some(Amount { units: self.units + other.units })
        } else {
            None
        }
    }
}

} // verus!
