//! Signal-path building blocks: the sample engine, its lo-fi stages, and the
//! control side of the resonant filter.

pub mod effects;
pub mod filter;
pub mod sample_engine;
