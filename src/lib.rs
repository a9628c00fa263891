//! Five ways to compute Fibonacci numbers, each proved to return the
//! mathematical value: plain recursion, recursion over a call-scoped memo,
//! a bottom-up table, and two variants memoized in a bounded LRU cache.

pub mod sequence;
pub mod strategies;
pub mod lru;
pub mod memoized;
