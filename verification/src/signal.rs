use vstd::prelude::*;
use vstd::arithmetic::mul::lemma_mul_upper_bound;
use crate::action::TradeAction;
use crate::units::{MAX_PRICE, MAX_RATIO};

verus! {

/// Threshold bands for signal evaluation, as exact rationals over a
/// shared denominator: a price above `average * upper_num / den`
/// signals a sell, one below `average * lower_num / den` a buy.
#[derive(Clone, Copy, Debug, PartialEq, Eq, Structural)]
pub struct SignalConfig {
    pub upper_num: u64,
    pub lower_num: u64,
    pub den: u64,
}

impl SignalConfig {
    /// The lower band sits below one, the upper band above it, so the
    /// two bands can never both fire on the same price.
    pub open spec fn wf(self) -> bool {
        &&& 0 < self.lower_num < self.den < self.upper_num
        &&& self.upper_num <= MAX_RATIO
        &&& self.den <= MAX_RATIO
    }

    /// The symmetric 0.1% band pair: upper 1.001, lower 0.999.
    pub fn milli_band() -> (c: SignalConfig)
        ensures
            c == (SignalConfig { upper_num: 1001, lower_num: 999, den: 1000 }),
            c.wf(),
    {
        SignalConfig { upper_num: 1001, lower_num: 999, den: 1000 }
    }
}

/// The raw band rule over a price and an already-computed average.
pub open spec fn band_of_average(price: u64, average: u64, c: SignalConfig) -> TradeAction {
    if price * c.den > average * c.upper_num {
        TradeAction::Sell
    } else if price * c.den < average * c.lower_num {
        TradeAction::Buy
    } else {
        TradeAction::Hold
    }
}

/// The band rule over the exact window mean `sum / len`, with the
/// divisions cleared: `price > (sum/len) * (num/den)` if and only if
/// `price * len * den > sum * num` (all quantities non-negative).
pub open spec fn band_of_window(price: u64, sum: int, len: int, c: SignalConfig) -> TradeAction {
    if price * len * c.den > sum * c.upper_num {
        TradeAction::Sell
    } else if price * len * c.den < sum * c.lower_num {
        TradeAction::Buy
    } else {
        TradeAction::Hold
    }
}

/// Suppression of a repeated decision: a raw signal equal to the last
/// emitted decision degrades to `Hold`.
pub open spec fn dedup(raw: TradeAction, last: TradeAction) -> TradeAction {
    if raw == last {
        TradeAction::Hold
    } else {
        raw
    }
}

/// Maps a new price plus a rolling average into a decision by the
/// configured threshold bands. Pure: the result depends on the two
/// prices and the configuration alone.
pub struct SignalEvaluator {
    pub config: SignalConfig,
}

impl SignalEvaluator {
    pub fn new(config: SignalConfig) -> (e: SignalEvaluator)
        requires
            config.wf(),
        ensures
            e.config == config,
    {
        SignalEvaluator { config }
    }

    pub fn evaluate(&self, new_price: u64, average: u64) -> (r: TradeAction)
        requires
            self.config.wf(),
            new_price <= MAX_PRICE,
            average <= MAX_PRICE,
        ensures
            r == band_of_average(new_price, average, self.config),
    {
        proof {
            lemma_mul_upper_bound(
                new_price as int,
                MAX_PRICE as int,
                self.config.den as int,
                MAX_RATIO as int,
            );
            lemma_mul_upper_bound(
                average as int,
                MAX_PRICE as int,
                self.config.upper_num as int,
                MAX_RATIO as int,
            );
            lemma_mul_upper_bound(
                average as int,
                MAX_PRICE as int,
                self.config.lower_num as int,
                MAX_RATIO as int,
            );
        }
        let lhs: u128 = (new_price as u128) * (self.config.den as u128);
        if lhs > (average as u128) * (self.config.upper_num as u128) {
            TradeAction::Sell
        } else if lhs < (average as u128) * (self.config.lower_num as u128) {
            TradeAction::Buy
        } else {
            TradeAction::Hold
        }
    }
}

/// The sell band and the buy band are mutually exclusive: no price can
/// be both above `average * upper` and below `average * lower`.
pub proof fn lemma_bands_exclusive(price: u64, average: u64, c: SignalConfig)
    requires
        c.wf(),
    ensures
        !(price * c.den > average * c.upper_num && price * c.den < average * c.lower_num),
{
    assert(average * c.lower_num <= average * c.upper_num) by (nonlinear_arith)
        requires
            average >= 0,
            c.lower_num <= c.upper_num,
    ;
}

/// A price exactly at the average always evaluates to `Hold`.
pub proof fn lemma_equal_price_holds(price: u64, c: SignalConfig)
    requires
        c.wf(),
    ensures
        band_of_average(price, price, c) == TradeAction::Hold,
{
    assert(price * c.den <= price * c.upper_num) by (nonlinear_arith)
        requires
            price >= 0,
            c.den <= c.upper_num,
    ;
    assert(price * c.den >= price * c.lower_num) by (nonlinear_arith)
        requires
            price >= 0,
            c.lower_num <= c.den,
    ;
}

} // verus!
