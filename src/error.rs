//! The library's top-level error.

use vstd::prelude::*;

verus! {

/// Errors reported to a user of the library.
#[derive(Debug, PartialEq, Eq)]
pub enum TechalyzerError {
    /// Any other error, with its message.
    Generic(String),
    /// No signal generator was chosen.
    NoIndicatorSpecified,
    /// No model file was given.
    NoModelFileSpecified,
}

} // verus!
