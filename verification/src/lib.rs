//! Moment statistics over streams of scalar and paired observations, that
//! can be merged and taken apart again.
//!
//! A summary holds a count, a sum and centred power sums. It takes one
//! observation in or out at a time, or a whole other summary, in constant
//! time and without seeing the observations again; mean, variance, skewness,
//! kurtosis, regression line and correlation are read from it.
//!
//! The sums are IEEE 754 binary64 numbers. They are carried as bit patterns
//! and computed by integer arithmetic, every operation rounded to nearest as
//! the standard asks, so that a result is the same on every machine and
//! what a function returns is stated exactly.
//!
//! - [`scalar`] and [`pair`]: the two summaries, their transitions and
//!   readers; [`moments`]: the formulas they share.
//! - [`aggregate`]: the steps of an aggregate that drives a summary;
//!   [`accessors`]: its readers as operands of an arrow operator;
//!   [`method`]: the choice between population and sample statistics;
//!   [`wire`]: a byte form of the summaries; [`error`]: what can go wrong.
//! - [`binary64`], [`arithmetic`], [`root`]: the numbers and their
//!   operations; [`rounding`] and [`binary`]: rounding to nearest.
//! - What holds of all this for every input: [`nearest`], that the rounding
//!   is the rounding to nearest; [`exact`], that results which the format
//!   holds are not rounded; [`alike`], what the operations make of the two
//!   zeros and of NaNs; [`laws`] and [`commute`], the laws of the merge and
//!   of its inverse; [`first`], the summary of one observation.

pub mod accessors;
pub mod aggregate;
pub mod alike;
pub mod arithmetic;
pub mod binary;
pub mod binary64;
pub mod commute;
pub mod error;
pub mod exact;
pub mod first;
pub mod laws;
pub mod method;
pub mod moments;
pub mod nearest;
pub mod pair;
pub mod root;
pub mod rounding;
pub mod scalar;
pub mod wire;
