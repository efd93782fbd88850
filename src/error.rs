//! Errors reported by the library.

use vstd::prelude::*;

verus! {

/// Why a request was refused.
#[derive(Debug, Clone, Copy, PartialEq, Eq, Structural)]
pub enum SynthError {
    /// A parameter lies outside the values the operation accepts.
    InvalidParameter,
    /// An oscillator slot that the bank does not have was addressed.
    IndexOutOfRange,
}

} // verus!
