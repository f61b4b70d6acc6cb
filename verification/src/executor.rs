//! The command side of the engine: the request/response boundary and the
//! executor that routes requests to the log.

pub mod command;
pub mod command_executor;
