//! Verified fixed-point core of a RAM record / RAM play sampler pair.
//!
//! Every audio value, position and pitch ratio is an integer in a documented
//! binary fixed-point format (see [`fixed`]), so the whole engine is exact
//! integer arithmetic and every routine carries a contract that Verus proves.

pub mod fixed;
pub mod dsp;
pub mod machines;
