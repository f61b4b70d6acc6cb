//! The concurrency side of the engine: the lock-free single-producer/
//! single-consumer ring buffer and the padded atomic cursors it is built
//! from.

pub mod cursor;
pub mod spsc;
