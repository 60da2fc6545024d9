//! Price data for a single instrument.

pub mod prices;
