//! Technical-analysis indicator alignment and bundling.
//!
//! Every sample is held as the bit pattern of an IEEE-754 double
//! (`f64::to_bits`), so the library compares and copies samples exactly and
//! never does floating-point arithmetic. The padding sentinel `0.0` is the
//! pattern `0`.
//!
//! The indicator math lives in the TA-Lib native library. The library here
//! decides whether a call may be made, adopts what the call reports, aligns
//! each result to the input length and assembles the named bundle.

pub mod error;
pub mod series;
pub mod align;
pub mod indicator;
pub mod adapter;
pub mod bundle;
