//! Techalyzer evaluates trading strategies against historical daily closing
//! prices: it turns positions into a valuation series by simulating their
//! execution, and measures the performance of that series.
//!
//! Prices and cash amounts are integers in the smallest currency unit, so
//! every amount the backtester reports is exact.

pub mod date;
pub mod util;
pub mod marketdata;
pub mod trading;
pub mod backtester;
pub mod config;
pub mod error;
pub mod indicators;
pub mod datasource;
