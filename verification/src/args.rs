//! The settings of one run.

use vstd::prelude::*;
use crate::estimate::{estimate, is_estimate};
use crate::rational::MAX_PRECISION;
use crate::sector::sector_power;

verus! {

/// What one run is asked for.
#[derive(Clone, Copy, Debug)]
pub struct Args {
    /// The number of chords to sum.
    pub iter: usize,
    /// The sector is one part in 2 to the `pow` of the circle.
    pub pow: i32,
    /// The number of decimal digits.
    pub prec: usize,
    /// Whether to keep quiet about intermediate values.
    pub silent: bool,
}

impl Default for Args {
    /// Ten chords over a sixteenth of the circle, at 32 digits, not silent.
    fn default() -> (out: Args)
        ensures
            out.iter == 10,
            out.pow == 4,
            out.prec == 32,
            !out.silent,
    {
        Args { iter: 10, pow: 4, prec: 32, silent: false }
    }
}

impl Args {
    /// The power that is used for the sector: `pow`, but 4 where `pow` is 3 or
    /// less, negative numbers included.
    pub open spec fn used_power(&self) -> nat {
        if self.pow <= 3 {
            4
        } else {
            self.pow as nat
        }
    }

    /// Whether the estimate can be written with `prec` digits: with one digit at
    /// least, and no more than the writer takes.
    pub open spec fn writable(&self) -> bool {
        1 <= self.prec <= MAX_PRECISION
    }

    /// Whether `pow` is replaced by 4, which is worth a warning.
    pub fn replaces_power(&self) -> (replaced: bool)
        ensures
            replaced == (self.pow <= 3),
    {
        self.pow <= 3
    }

    /// The power that is used for the sector.
    pub fn sector_power(&self) -> (used: u64)
        ensures
            used == self.used_power(),
            used == sector_power(used as nat),
    {
        if self.pow <= 3 {
            4
        } else {
            self.pow as u64
        }
    }

    /// The estimate of pi for these settings, written with `prec` significant
    /// digits; `None` where it cannot be written with that many.
    pub fn estimate(&self) -> (out: Option<String>)
        ensures
            out is Some <==> self.writable(),
            out matches Some(text) ==> is_estimate(
                self.iter as u64,
                self.used_power() as u64,
                self.prec as u64,
                text@,
            ),
    {
        let prec = self.prec as u64;
        if prec == 0 || prec > MAX_PRECISION {
            return None;
        }
        Some(estimate(self.iter as u64, self.sector_power(), prec))
    }
}

} // verus!
