//! Small verified helpers: aggregation of `Result` and `Option` sequences,
//! a single-argument memoizer, a bounded retry policy, a Fibonacci routine
//! over a caller-owned cache, and partial application of multiplication.

pub mod aggregate;
pub mod fibonacci;
pub mod memo;
pub mod partial;
pub mod retry;
pub mod sequences;
pub mod shapes;
