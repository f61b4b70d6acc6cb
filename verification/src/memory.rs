//! The storage side of the engine: segments, the key index, the log that
//! composes them, and the configuration options the log is built from.

pub mod index;
pub mod key_value;
pub mod log;
pub mod options;
pub mod segment;
