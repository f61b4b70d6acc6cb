//! An embeddable, in-memory, append-only key-value storage engine organised
//! as a fixed-capacity segmented log, together with a lock-free
//! single-producer/single-consumer ring buffer for handing work between
//! threads.

pub mod executor;
pub mod key_value;
pub mod memory;
pub mod queue;
pub mod wire;
