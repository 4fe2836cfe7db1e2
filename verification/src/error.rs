//! The ways a computation can be refused.

use vstd::prelude::*;

verus! {

/// Why a computation was refused.
#[derive(Clone, Copy, Debug, PartialEq, Eq, Structural)]
pub enum NumericError {
    /// A square root of a negative number was asked for: directly, or by a point
    /// outside the unit circle.
    InvalidInput,
}

} // verus!
