//! Verified core of a buy-then-sell token trade: 256-bit amount arithmetic,
//! slippage math, configuration parsing, and the trade state machine.
//! Network submission and environment access live outside this library.

pub mod address;
pub mod amount;
pub mod config;
pub mod digits;
pub mod engine;
pub mod format;
pub mod units;
