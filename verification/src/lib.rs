//! Distributed matrix multiplication.
//!
//! A broker decomposes a matrix product into one dot-product work unit per
//! output cell, dispatches each unit to a worker endpoint chosen by
//! round-robin load balancing, and assembles the unit outcomes into the
//! result matrix, reporting a single structured failure if any unit fails.
//! The worker side computes the saturating dot product of two equal-length
//! integer vectors.

pub mod assemble;
pub mod broker;
pub mod codec;
pub mod dispatch;
pub mod errors;
pub mod matrix;
pub mod partition;
pub mod validate;
pub mod worker;
