//! A permuted congruential generator over 128 bits of state with logarithmic
//! jump-ahead, and the integer samplers built on it.

pub mod affine;
pub mod doubles;
pub mod generator;
pub mod laws;
pub mod period;
pub mod range;
pub mod sequence;
pub mod stream;

pub use generator::OrangeyCtx;
pub use stream::Stream;
