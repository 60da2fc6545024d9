//! The technical indicators that can serve as signal generators.

use vstd::prelude::*;

verus! {

/// The technical indicators supported by the library.
#[derive(Clone, Copy, Debug, PartialEq, Eq, Structural, Hash)]
pub enum SupportedIndicators {
    BollingerBands,
    RelativeStrengthIndex,
    MACD,
    SmaCrossover,
}

/// An ordered list of indicators; it may be empty.
#[derive(Debug, PartialEq, Eq)]
pub struct ListOfIndicators(pub Vec<SupportedIndicators>);

/// The indicators used when none are chosen: relative strength index,
/// Bollinger bands and MACD, in that order.
pub open spec fn default_indicator_list() -> Seq<SupportedIndicators> {
    seq![
        SupportedIndicators::RelativeStrengthIndex,
        SupportedIndicators::BollingerBands,
        SupportedIndicators::MACD,
    ]
}

/// The indicators used when none are chosen.
pub fn default_indicators() -> (r: Vec<SupportedIndicators>)
    ensures
        r@ == default_indicator_list(),
{
    let r = vec![
        SupportedIndicators::RelativeStrengthIndex,
        SupportedIndicators::BollingerBands,
        SupportedIndicators::MACD,
    ];
    assert(r@ =~= default_indicator_list());
    r
}

impl ListOfIndicators {
    /// True if the list holds no indicator.
    pub fn is_empty(&self) -> (r: bool)
        ensures
            r == (self.0@.len() == 0),
    {
        self.0.len() == 0
    }
}

impl Default for ListOfIndicators {
    fn default() -> (r: Self)
        ensures
            r.0@ == default_indicator_list(),
    {
        ListOfIndicators(default_indicators())
    }
}

} // verus!
