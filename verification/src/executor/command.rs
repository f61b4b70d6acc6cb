//! The command boundary: a closed tagged-variant request type, its wire
//! layout (`key_length | value_length | tag | key | value`), and the
//! response type the executor answers with.

use vstd::prelude::*;
use bytes::BytesMut;

use crate::memory::key_value::KeyValue;
use crate::wire::{
    bm_as_slice, bm_get_u16_le, bm_get_u8, bm_new, bm_put_slice, bm_put_u16_le, bm_put_u8,
    bytes_of, copy_range, spec_command_key_len, spec_command_value_len, spec_encode_command,
    spec_parse_command, DecodeError,
};

verus! {

/// The three requests the engine answers. An unrecognised wire tag is a
/// fatal decode error, not a variant.
#[derive(Copy, Clone, PartialEq, Eq, Structural, Debug)]
pub enum CommandType {
    Get,
    Put,
    Update,
}

impl CommandType {
    /// The one-byte wire tag of this command type.
    pub open spec fn spec_tag(self) -> u8 {
        match self {
            CommandType::Get => 1,
            CommandType::Put => 2,
            CommandType::Update => 3,
        }
    }

    /// The one-byte wire tag of this command type.
    pub fn tag(&self) -> (tag: u8)
        ensures
            tag == self.spec_tag(),
    {
        match self {
            CommandType::Get => 1,
            CommandType::Put => 2,
            CommandType::Update => 3,
        }
    }

    /// The command type a wire tag denotes. An unrecognised tag is a fatal
    /// decode error and is excluded here.
    pub fn from(value: u8) -> (command_type: CommandType)
        requires
            1 <= value <= 3,
        ensures
            command_type.spec_tag() == value,
    {
        match value {
            1 => CommandType::Get,
            2 => CommandType::Put,
            _ => CommandType::Update,
        }
    }
}

/// A request: a key, a value for the commands that carry one, and the
/// command type.
pub struct Command {
    pub key: Vec<u8>,
    pub value: Option<Vec<u8>>,
    pub command_type: CommandType,
}

impl Command {
    /// The value bytes this command carries on the wire: its value, or
    /// nothing.
    pub open spec fn spec_value_bytes(self) -> Seq<u8> {
        match self.value {
            Some(value) => value@,
            None => Seq::empty(),
        }
    }

    /// A lookup request for `key`.
    pub fn get(key: Vec<u8>) -> (command: Self)
        ensures
            command.key@ == key@,
            command.value is None,
            command.command_type == CommandType::Get,
    {
        Command { key, value: None, command_type: CommandType::Get }
    }

    /// A write request for `key`/`value`.
    pub fn put(key: Vec<u8>, value: Vec<u8>) -> (command: Self)
        ensures
            command.key@ == key@,
            command.value == Some(value),
            command.command_type == CommandType::Put,
    {
        Command { key, value: Some(value), command_type: CommandType::Put }
    }

    /// An update request for `key`/`value`; the log treats it as another
    /// write (last write wins).
    pub fn update(key: Vec<u8>, value: Vec<u8>) -> (command: Self)
        ensures
            command.key@ == key@,
            command.value == Some(value),
            command.command_type == CommandType::Update,
    {
        Command { key, value: Some(value), command_type: CommandType::Update }
    }

    /// Serialises this command to its byte layout:
    /// `key_length | value_length | tag | key | value`.
    pub fn encode(&self) -> (buffer: BytesMut)
        requires
            self.key@.len() <= 0xffff,
            self.spec_value_bytes().len() <= 0xffff,
        ensures
            bytes_of(buffer) == spec_encode_command(
                self.key@,
                self.spec_value_bytes(),
                self.command_type.spec_tag(),
            ),
    {
        let mut buffer = bm_new();
        bm_put_u16_le(&mut buffer, self.key.len() as u16);
        let value_length: usize = match &self.value {
            Some(value) => value.len(),
            None => 0,
        };
        bm_put_u16_le(&mut buffer, value_length as u16);
        bm_put_u8(&mut buffer, self.command_type.tag());
        bm_put_slice(&mut buffer, self.key.as_slice());
        match &self.value {
            Some(value) => bm_put_slice(&mut buffer, value.as_slice()),
            None => (),
        }
        proof {
            assert(bytes_of(buffer) =~= spec_encode_command(
                self.key@,
                self.spec_value_bytes(),
                self.command_type.spec_tag(),
            ));
        }
        buffer
    }

    /// Deserialises a command from its byte layout. The headers and the tag
    /// byte must be present and the tag recognised (an unknown tag is a
    /// fatal decode error); fewer payload bytes than the headers declare is
    /// a recoverable decode error. A declared value length of zero decodes
    /// as a command without a value.
    pub fn decode_from(buffer: BytesMut) -> (result: Result<Command, DecodeError>)
        requires
            bytes_of(buffer).len() >= 5,
            1 <= bytes_of(buffer)[4] <= 3,
        ensures
            match result {
                Ok(command) => {
                    &&& spec_parse_command(bytes_of(buffer)) == Some(
                        (
                            command.key@,
                            command.spec_value_bytes(),
                            command.command_type.spec_tag(),
                        ),
                    )
                    &&& (command.value is None <==> spec_command_value_len(bytes_of(buffer)) == 0)
                },
                Err(_) => spec_parse_command(bytes_of(buffer)) is None,
            },
            result is Ok <==> bytes_of(buffer).len() >= 5 + spec_command_key_len(bytes_of(buffer))
                + spec_command_value_len(bytes_of(buffer)),
    {
        let ghost initial = bytes_of(buffer);
        let mut buffer = buffer;
        let key_length = bm_get_u16_le(&mut buffer);
        let value_length = bm_get_u16_le(&mut buffer);
        let tag = bm_get_u8(&mut buffer);
        let rest = bm_as_slice(&buffer);
        proof {
            assert(rest@ =~= initial.skip(5));
        }
        if rest.len() < key_length as usize + value_length as usize {
            return Err(DecodeError::UnexpectedEndOfBuffer);
        }
        let key = copy_range(rest, 0, key_length as usize);
        let value = copy_range(
            rest,
            key_length as usize,
            key_length as usize + value_length as usize,
        );
        proof {
            assert(key@ =~= initial.subrange(5, 5 + spec_command_key_len(initial)));
            assert(value@ =~= initial.subrange(
                5 + spec_command_key_len(initial),
                5 + spec_command_key_len(initial) + spec_command_value_len(initial),
            ));
        }
        let command = Command {
            key,
            value: if value.is_empty() {
                None
            } else {
                Some(value)
            },
            command_type: CommandType::from(tag),
        };
        Ok(command)
    }
}

/// The executor's answer: the append outcome for a write command, or the
/// lookup result for a get.
pub enum CommandResponse {
    Put(bool),
    Update(bool),
    Get(Option<Result<KeyValue, DecodeError>>),
}

impl CommandResponse {
    /// Whether this response answers a put command.
    pub fn is_put_response(&self) -> (is_put: bool)
        ensures
            is_put == (self matches CommandResponse::Put(_)),
    {
        if let CommandResponse::Put(_) = self {
            return true;
        }
        false
    }

    /// The append outcome a put response carries; `false` for any other
    /// response.
    pub fn put_response(&self) -> (response: bool)
        ensures
            response == match *self {
                CommandResponse::Put(success) => success,
                _ => false,
            },
    {
        if let CommandResponse::Put(response) = self {
            return *response;
        }
        false
    }

    /// Whether this response answers an update command.
    pub fn is_update_response(&self) -> (is_update: bool)
        ensures
            is_update == (self matches CommandResponse::Update(_)),
    {
        if let CommandResponse::Update(_) = self {
            return true;
        }
        false
    }

    /// The append outcome an update response carries; `false` for any other
    /// response.
    pub fn update_response(&self) -> (response: bool)
        ensures
            response == match *self {
                CommandResponse::Update(success) => success,
                _ => false,
            },
    {
        if let CommandResponse::Update(response) = self {
            return *response;
        }
        false
    }

    /// Whether this response answers a get command.
    pub fn is_get_response(&self) -> (is_get: bool)
        ensures
            is_get == (self matches CommandResponse::Get(_)),
    {
        if let CommandResponse::Get(_) = self {
            return true;
        }
        false
    }

    /// The lookup result a get response carries; nothing for any other
    /// response.
    pub fn get_response(self) -> (response: Option<Result<KeyValue, DecodeError>>)
        ensures
            match self {
                CommandResponse::Get(lookup) => response == lookup,
                _ => response is None,
            },
    {
        if let CommandResponse::Get(response) = self {
            return response;
        }
        None
    }
}

} // verus!
