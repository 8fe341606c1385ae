use vstd::prelude::*;

verus! {

/// The closed set of trading decisions the engine can emit.
#[derive(Clone, Copy, Debug, PartialEq, Eq, Structural)]
pub enum TradeAction {
    Buy,
    Sell,
    Hold,
}

} // verus!
