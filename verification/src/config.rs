//! The settings that the program is started with.
use vstd::prelude::*;
use crate::fixed::HUNDRED;

verus! {

/// How much the program logs.
#[derive(Clone, Copy, Debug, PartialEq, Eq, Structural)]
pub enum LogLevel {
    Off,
    Error,
    Warn,
    Info,
    Debug,
    Trace,
}

/// The settings. The risk deduction and the percentages are fixed-point
/// values.
#[derive(Debug)]
pub struct Config {
    pub log_level: LogLevel,
    pub public_key: String,
    pub private_key: String,
    pub ticker: String,
    pub candle_size: String,
    pub risk_deduction: i64,
    pub padding_percent_sell: i64,
    pub padding_percent_buy: i64,
    pub stop_percent: i64,
    pub capital_percent: i64,
    pub order_decimals: usize,
    pub price_decimals: usize,
    pub is_simulation: bool,
    pub simulate_from: String,
}

impl Config {
    /// The settings can run the strategy: the two paddings are not negative,
    /// the stop is at least as wide as either and at most one hundred
    /// percent, the capital share lies below one hundred percent, and the
    /// risk deduction is not negative.
    pub open spec fn valid(&self) -> bool {
        &&& 0 <= self.padding_percent_sell <= self.stop_percent
        &&& 0 <= self.padding_percent_buy <= self.stop_percent
        &&& self.stop_percent <= HUNDRED
        &&& 0 <= self.capital_percent < HUNDRED
        &&& 0 <= self.risk_deduction
    }

    /// Whether the settings can run the strategy.
    pub fn is_valid(&self) -> (r: bool)
        ensures
            r == self.valid(),
    {
        0 <= self.padding_percent_sell && self.padding_percent_sell <= self.stop_percent && 0
            <= self.padding_percent_buy && self.padding_percent_buy <= self.stop_percent
            && self.stop_percent <= HUNDRED && 0 <= self.capital_percent && self.capital_percent
            < HUNDRED && 0 <= self.risk_deduction
    }
}

} // verus!
