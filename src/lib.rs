//! Sliding-window statistics over a stream of IEEE-754 double samples.
//!
//! Each sample is carried as the bit pattern of an `f64` (`u64`), so that the
//! window bookkeeping, validity tracking, ordering and order statistics can be
//! stated and checked exactly; floating-point arithmetic on the values is left
//! to the caller.
pub mod utils;
pub mod rolling;
