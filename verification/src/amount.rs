//! Money as a fixed-point number with four fractional decimal digits.

use vstd::prelude::*;

verus! {

/// Number of amount units in one whole currency unit.
pub const UNITS_PER_WHOLE: u64 = 10_000;

/// A non-negative amount of money, counted in ten-thousandths of a currency unit.
#[derive(Clone, Copy, Debug, PartialEq, Eq, Structural)]
pub struct Amount(pub u64);

impl Amount {
    /// The amount `whole.fraction`, where `fraction` counts ten-thousandths.
    ///
    /// `None` when `fraction` is not below one whole unit or the amount does not fit.
    pub fn from_parts(whole: u64, fraction: u64) -> (result: Option<Amount>)
        ensures
            result == (if fraction < UNITS_PER_WHOLE && whole * UNITS_PER_WHOLE + fraction
                <= u64::MAX {
                Some(Amount((whole * UNITS_PER_WHOLE + fraction) as u64))
            } else {
                None
            }),
    {
        if fraction >= UNITS_PER_WHOLE {
            return None;
        }
        match whole.checked_mul(UNITS_PER_WHOLE) {
            Some(scaled) => match scaled.checked_add(fraction) {
                Some(units) => Some(Amount(units)),
                None => None,
            },
            None => None,
        }
    }

    /// The whole currency units in the amount.
    pub fn whole(&self) -> (result: u64)
        ensures
            result == self.0 / UNITS_PER_WHOLE,
    {
        self.0 / UNITS_PER_WHOLE
    }

    /// The ten-thousandths left over after the whole units.
    pub fn fraction(&self) -> (result: u64)
        ensures
            result == self.0 % UNITS_PER_WHOLE,
            result < UNITS_PER_WHOLE,
    {
        self.0 % UNITS_PER_WHOLE
    }
}

} // verus!
