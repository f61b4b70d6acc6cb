//! A key/value record as handed to the log: owned key and value bytes, both
//! non-empty, small enough for the 16-bit length headers of the record
//! layout.

use vstd::prelude::*;
use bytes::BytesMut;

use crate::wire::{
    bm_as_slice, bm_get_u16_le, bm_new, bm_put_slice, bm_put_u16_le, bytes_of, copy_range,
    spec_encode_record, spec_parse_record, spec_record_key_len, spec_record_value_len, DecodeError,
};

verus! {

/// An owned key/value pair. Construction rejects an empty key or value, and
/// both must fit the 16-bit length headers of the record layout.
pub struct KeyValue {
    key: Vec<u8>,
    value: Vec<u8>,
}

impl KeyValue {
    /// Every record holds a non-empty key and value, each fitting its
    /// 16-bit length header.
    #[verifier::type_invariant]
    pub open spec fn wf(self) -> bool {
        0 < self.spec_key().len() <= 0xffff && 0 < self.spec_value().len() <= 0xffff
    }

    /// The key bytes of this record.
    pub closed spec fn spec_key(self) -> Seq<u8> {
        self.key@
    }

    /// The value bytes of this record.
    pub closed spec fn spec_value(self) -> Seq<u8> {
        self.value@
    }

    /// An empty key or value is construction-time misuse, as is one too long
    /// for its 16-bit length header; both are excluded here.
    pub fn new(key: Vec<u8>, value: Vec<u8>) -> (key_value: KeyValue)
        requires
            0 < key@.len() <= 0xffff,
            0 < value@.len() <= 0xffff,
        ensures
            key_value.spec_key() == key@,
            key_value.spec_value() == value@,
    {
        KeyValue { key, value }
    }

    /// Serialises this record to its byte layout:
    /// `key_length | value_length | key | value`.
    pub fn encode(&self) -> (buffer: BytesMut)
        ensures
            bytes_of(buffer) == spec_encode_record(self.spec_key(), self.spec_value()),
    {
        proof {
            use_type_invariant(self);
        }
        let mut buffer = bm_new();
        bm_put_u16_le(&mut buffer, self.key.len() as u16);
        bm_put_u16_le(&mut buffer, self.value.len() as u16);
        bm_put_slice(&mut buffer, self.key.as_slice());
        bm_put_slice(&mut buffer, self.value.as_slice());
        proof {
            assert(bytes_of(buffer) =~= spec_encode_record(self.spec_key(), self.spec_value()));
        }
        buffer
    }

    /// Deserialises a record from its byte layout. The headers must be
    /// present and must declare a non-empty key and value (a buffer whose
    /// headers declare an empty one would be construction-time misuse);
    /// fewer payload bytes than the headers declare is a recoverable decode
    /// error.
    pub fn decode_from(buffer: BytesMut) -> (result: Result<KeyValue, DecodeError>)
        requires
            bytes_of(buffer).len() >= 4,
            spec_record_key_len(bytes_of(buffer)) > 0,
            spec_record_value_len(bytes_of(buffer)) > 0,
        ensures
            match result {
                Ok(key_value) => spec_parse_record(bytes_of(buffer)) == Some(
                    (key_value.spec_key(), key_value.spec_value()),
                ),
                Err(_) => spec_parse_record(bytes_of(buffer)) is None,
            },
            result is Ok <==> bytes_of(buffer).len() >= 4 + spec_record_key_len(bytes_of(buffer))
                + spec_record_value_len(bytes_of(buffer)),
    {
        let ghost initial = bytes_of(buffer);
        let mut buffer = buffer;
        let key_length = bm_get_u16_le(&mut buffer);
        let value_length = bm_get_u16_le(&mut buffer);
        let rest = bm_as_slice(&buffer);
        proof {
            assert(rest@ =~= initial.skip(4));
        }
        if rest.len() < key_length as usize + value_length as usize {
            return Err(DecodeError::UnexpectedEndOfBuffer);
        }
        let key = copy_range(rest, 0, key_length as usize);
        let value = copy_range(
            rest,
            key_length as usize,
            key_length as usize + value_length as usize,
        );
        proof {
            assert(key@ =~= initial.subrange(4, 4 + spec_record_key_len(initial)));
            assert(value@ =~= initial.subrange(
                4 + spec_record_key_len(initial),
                4 + spec_record_key_len(initial) + spec_record_value_len(initial),
            ));
        }
        Ok(KeyValue::new(key, value))
    }

    /// An owned copy of the key bytes.
    pub fn key(&self) -> (key: Vec<u8>)
        ensures
            key@ == self.spec_key(),
    {
        let key = self.key.clone();
        proof {
            assert(key@ =~= self.key@);
        }
        key
    }

    /// The value bytes.
    pub fn value(&self) -> (value: &[u8])
        ensures
            value@ == self.spec_value(),
    {
        self.value.as_slice()
    }
}

} // verus!
