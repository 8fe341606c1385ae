use vstd::prelude::*;

verus! {

/// Number of fixed-point units in one whole quoted-currency unit:
/// prices carry exactly five decimal places, the exchange's tick grid.
pub const SCALE: u64 = 100_000;

/// Largest price the engine accepts, in fixed-point units. Keeping a
/// price below 2^62 lets window sums, band products and the re-priced
/// (at most doubled) limit price stay inside machine integers.
pub const MAX_PRICE: u64 = 0x3FFF_FFFF_FFFF_FFFF;

/// Largest account balance the sizing logic accepts, in fixed-point
/// units: a balance times `SCALE` must still fit in a `u64`.
pub const MAX_AMOUNT: u64 = 0x3FFF_FFFF_FFFF;

/// Largest window capacity, so that a full window's sum of prices
/// fits comfortably in a `u128`.
pub const MAX_CAPACITY: usize = 0xFFFF_FFFF;

/// Largest numerator or denominator of a configured ratio (threshold
/// band or slippage factor).
pub const MAX_RATIO: u64 = 0xFFFF_FFFF;

} // verus!
