//! The errors of the conversions.
use vstd::prelude::*;

verus! {

/// Why a conversion was refused.
#[derive(Debug, Clone, Copy, PartialEq, Eq, Structural)]
pub enum Error {
    /// A temperature, resistance or converter code lies outside the domain
    /// that the model supports.
    OutOfBounds,
    /// A sensor type has no data for the conversion asked for.
    NonexistentType,
}

} // verus!
