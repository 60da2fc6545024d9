//! Positions, trade series and the models that produce them.

pub mod buyandhold;
pub mod dtmodel;
pub mod ml;
pub mod position;
pub mod tradingmodel;

pub use position::Position;

use vstd::prelude::*;

verus! {

/// The trading models the library offers.
#[derive(Clone, Copy, Debug, PartialEq, Eq, Structural)]
pub enum SupportedTradingModel {
    ManualTradingAlgo,
    BuyAndHold,
    MachineLearningModel,
}

} // verus!
