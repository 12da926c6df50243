//! A dense square matrix multiplication benchmark kernel.
//!
//! The library holds the two multiplication engines — a naive triple loop
//! and a cache-blocked variant — together with the matrix type they work
//! on, a random matrix generator, and the arithmetic that turns an
//! operation count and an elapsed time into a throughput figure.
//! Entries are 64-bit integers with wrapping arithmetic, so both engines
//! have an exact mathematical contract: every output cell equals the
//! inner product of the corresponding row and column, accumulated in a
//! fixed order.

pub mod bench;
pub mod engines;
pub mod matrix;
