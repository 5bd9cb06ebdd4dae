//! Simple moving average over a fixed-size sliding window of integer samples.
//!
//! `MovAvg<T, A, WINDOW_SIZE>` keeps the last `WINDOW_SIZE` samples of type `T`
//! in a circular buffer and their running sum in an accumulator of type `A`.
//! Each feed takes the leaving sample off the sum and adds the new one, with
//! checked arithmetic: a failed update reports an error and changes nothing.

mod num;
mod sealed;
mod sma;

pub use num::{trunc_div, NumKind};
pub use sma::{in_range, initialize_accu, seed_outcome, sum, values, MovAvg, MovAvgAccu, MovAvgError};

