//! Errors of getting price data, and the parts of reading it that decide
//! what the data means.

pub mod csv;

use vstd::prelude::*;

verus! {

/// Errors arising from attempts to get data from different data sources.
#[derive(Debug, PartialEq, Eq)]
pub enum Error {
    AlphaVantageError(String),
    FileNotFound(String),
    SymbolMismatch { expected: String, actual: String },
    NoSuchDataSource(String),
    CsvError(String),
    Other { msg: String, context: String },
}

} // verus!
