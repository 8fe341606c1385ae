//! A streaming trading-decision engine for a single asset pair.
//!
//! Prices are fixed-point integers: one unit is 10^-5 of the quoted
//! currency, so the 5-decimal price grid of the exchange is exact.
//! The engine keeps a rolling window of recent prices, turns deviations
//! from the window's mean into buy/sell/hold signals, and drives the
//! lifecycle of a resting limit order (place, wait, cancel, re-price)
//! as a state machine, suppressing repeated same-direction trades.

pub mod action;
pub mod engine;
pub mod lifecycle;
pub mod parse;
pub mod queue;
pub mod signal;
pub mod units;
