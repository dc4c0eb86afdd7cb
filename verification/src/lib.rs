//! A time-based token vesting engine.
//!
//! A fixed pot of an underlying asset is released gradually according to a
//! linear schedule with an instantly-unlocked initial fraction.  Claim rights
//! are fungible share units redeemable at any time for a proportional slice of
//! whatever has been released so far; redeeming early forfeits the unreleased
//! remainder, which stays behind and raises the value of the shares that are
//! still outstanding.
//!
//! All quantities are fixed-point numbers with twelve fractional decimal
//! digits (see [`schedule::ONE`]); timestamps are seconds.  The wall clock is
//! injected: every time-dependent operation takes the current time as an
//! argument.

pub mod account;
pub mod errors;
pub mod laws;
pub mod pool;
pub mod schedule;
pub mod vester;
