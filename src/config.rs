//! Configuration of the library's entry points.

use vstd::prelude::*;

verus! {

/// Something like an API key used to access a market data source.
#[derive(Debug, PartialEq, Eq)]
pub struct Secret {
    pub data: Option<String>,
}

/// Parameters for running the backtester.
#[derive(Clone, Copy, Debug, PartialEq, Eq, Structural)]
pub struct BacktesterParams {}

} // verus!
