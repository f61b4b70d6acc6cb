//! The dispatch layer: a three-way switch mapping a request to a log
//! operation.

use vstd::prelude::*;

use crate::executor::command::{Command, CommandResponse, CommandType};
use crate::memory::key_value::KeyValue;
use crate::memory::log::Log;

verus! {

/// Owns a log and executes commands against it.
pub struct CommandExecutor {
    log: Log,
}

impl CommandExecutor {
    /// The log this executor owns.
    pub closed spec fn spec_log(self) -> Log {
        self.log
    }

    pub fn new(log: Log) -> (executor: Self)
        ensures
            executor.spec_log() == log,
    {
        CommandExecutor { log }
    }

    /// Routes the command: a get looks the key up without changing the log;
    /// a put or update appends the key/value record. A put or update must
    /// carry a key and a value fit for a record — anything else is
    /// construction-time misuse, excluded here.
    pub fn execute(&mut self, command: Command) -> (response: CommandResponse)
        requires
            old(self).spec_log().wf(),
            command.command_type != CommandType::Get ==> {
                &&& 0 < command.key@.len() <= 0xffff
                &&& command.value is Some
                &&& 0 < command.spec_value_bytes().len() <= 0xffff
            },
        ensures
            final(self).spec_log().wf(),
            match command.command_type {
                CommandType::Get => {
                    &&& *final(self) == *old(self)
                    &&& response matches CommandResponse::Get(lookup) && Log::get_post(
                        old(self).spec_log(),
                        command.key@,
                        lookup,
                    )
                },
                CommandType::Put => response matches CommandResponse::Put(success)
                    && Log::append_post(
                    old(self).spec_log(),
                    final(self).spec_log(),
                    command.key@,
                    command.spec_value_bytes(),
                    success,
                ),
                CommandType::Update => response matches CommandResponse::Update(success)
                    && Log::append_post(
                    old(self).spec_log(),
                    final(self).spec_log(),
                    command.key@,
                    command.spec_value_bytes(),
                    success,
                ),
            },
    {
        match command.command_type {
            CommandType::Get => CommandResponse::Get(self.log.try_get(command.key.as_slice())),
            CommandType::Put => CommandResponse::Put(
                self.log.try_append(KeyValue::new(command.key, command.value.unwrap())),
            ),
            CommandType::Update => CommandResponse::Update(
                self.log.try_append(KeyValue::new(command.key, command.value.unwrap())),
            ),
        }
    }
}

} // verus!
