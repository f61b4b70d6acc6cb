//! The byte layouts the engine speaks: the record layout stored inside
//! segments and the command layout of the dispatch boundary, together with
//! the buffer primitives (from the `bytes` crate) used to build and read
//! them.
//!
//! A record is `key_length (u16 LE) | value_length (u16 LE) | key | value`;
//! a command adds a one-byte tag between the lengths and the key.

use vstd::prelude::*;
use bytes::{Buf, BufMut, BytesMut};

verus! {

/// A decode failure: the buffer holds fewer bytes than its length headers
/// declare.
#[derive(Clone, Copy, Debug, PartialEq, Eq, Structural)]
pub enum DecodeError {
    UnexpectedEndOfBuffer,
}

/// The two little-endian bytes of a 16-bit length header.
pub open spec fn le16_bytes(n: u16) -> Seq<u8> {
    seq![(n as int % 256) as u8, (n as int / 256) as u8]
}

/// The value a little-endian 16-bit header holds.
pub open spec fn le16_value(lo: u8, hi: u8) -> int {
    lo + 256 * (hi as int)
}

/// The exact byte string a record with this key and value is stored as.
pub open spec fn spec_encode_record(key: Seq<u8>, value: Seq<u8>) -> Seq<u8> {
    le16_bytes(key.len() as u16) + le16_bytes(value.len() as u16) + key + value
}

/// The key length a record buffer's first header declares.
pub open spec fn spec_record_key_len(b: Seq<u8>) -> int
    recommends
        b.len() >= 4,
{
    le16_value(b[0], b[1])
}

/// The value length a record buffer's second header declares.
pub open spec fn spec_record_value_len(b: Seq<u8>) -> int
    recommends
        b.len() >= 4,
{
    le16_value(b[2], b[3])
}

/// What decoding a record buffer yields: the declared key and value byte
/// ranges, or nothing when the buffer is shorter than its headers declare.
/// Trailing bytes beyond the declared lengths are ignored.
pub open spec fn spec_parse_record(b: Seq<u8>) -> Option<(Seq<u8>, Seq<u8>)> {
    if b.len() >= 4 && b.len() >= 4 + spec_record_key_len(b) + spec_record_value_len(b) {
        Some(
            (
                b.subrange(4, 4 + spec_record_key_len(b)),
                b.subrange(
                    4 + spec_record_key_len(b),
                    4 + spec_record_key_len(b) + spec_record_value_len(b),
                ),
            ),
        )
    } else {
        None
    }
}

/// The exact byte string a command with this key, value and tag is sent as.
/// A command without a value payload encodes an empty `value`.
pub open spec fn spec_encode_command(key: Seq<u8>, value: Seq<u8>, tag: u8) -> Seq<u8> {
    le16_bytes(key.len() as u16) + le16_bytes(value.len() as u16) + seq![tag] + key + value
}

/// The key length a command buffer's first header declares.
pub open spec fn spec_command_key_len(b: Seq<u8>) -> int
    recommends
        b.len() >= 5,
{
    le16_value(b[0], b[1])
}

/// The value length a command buffer's second header declares.
pub open spec fn spec_command_value_len(b: Seq<u8>) -> int
    recommends
        b.len() >= 5,
{
    le16_value(b[2], b[3])
}

/// What decoding a command buffer yields: the tag byte and the declared key
/// and value byte ranges, or nothing when the buffer is shorter than its
/// headers declare.
pub open spec fn spec_parse_command(b: Seq<u8>) -> Option<(Seq<u8>, Seq<u8>, u8)> {
    if b.len() >= 5 && b.len() >= 5 + spec_command_key_len(b) + spec_command_value_len(b) {
        Some(
            (
                b.subrange(5, 5 + spec_command_key_len(b)),
                b.subrange(
                    5 + spec_command_key_len(b),
                    5 + spec_command_key_len(b) + spec_command_value_len(b),
                ),
                b[4],
            ),
        )
    } else {
        None
    }
}

/// Round trip for the 16-bit length headers: the two little-endian bytes of
/// `n` read back as `n`.
pub proof fn lemma_le16_round_trip(n: u16)
    ensures
        le16_value(le16_bytes(n)[0], le16_bytes(n)[1]) == n,
{
}

/// Decoding inverts encoding: any record with a non-empty key and value that
/// fit the 16-bit headers is recovered exactly from its encoded bytes.
pub proof fn lemma_record_round_trip(key: Seq<u8>, value: Seq<u8>)
    requires
        0 < key.len() <= 0xffff,
        0 < value.len() <= 0xffff,
    ensures
        spec_parse_record(spec_encode_record(key, value)) == Some((key, value)),
        spec_encode_record(key, value).len() == 4 + key.len() + value.len(),
        spec_record_key_len(spec_encode_record(key, value)) == key.len(),
        spec_record_value_len(spec_encode_record(key, value)) == value.len(),
{
    let b = spec_encode_record(key, value);
    lemma_le16_round_trip(key.len() as u16);
    lemma_le16_round_trip(value.len() as u16);
    assert(spec_record_key_len(b) == key.len());
    assert(spec_record_value_len(b) == value.len());
    assert(b.subrange(4, 4 + key.len() as int) =~= key);
    assert(b.subrange(4 + key.len() as int, 4 + key.len() as int + value.len() as int) =~= value);
}

/// Decoding inverts encoding for commands as well, whatever the tag, for any
/// key and value that fit the 16-bit headers.
pub proof fn lemma_command_round_trip(key: Seq<u8>, value: Seq<u8>, tag: u8)
    requires
        key.len() <= 0xffff,
        value.len() <= 0xffff,
    ensures
        spec_parse_command(spec_encode_command(key, value, tag)) == Some((key, value, tag)),
{
    let b = spec_encode_command(key, value, tag);
    lemma_le16_round_trip(key.len() as u16);
    lemma_le16_round_trip(value.len() as u16);
    assert(spec_command_key_len(b) == key.len());
    assert(spec_command_value_len(b) == value.len());
    assert(b[4] == tag);
    assert(b.subrange(5, 5 + key.len() as int) =~= key);
    assert(b.subrange(5 + key.len() as int, 5 + key.len() as int + value.len() as int) =~= value);
}

#[verifier::external_type_specification]
#[verifier::external_body]
pub struct ExBytesMut(BytesMut);

/// The byte string a `bytes::BytesMut` buffer currently holds.
pub uninterp spec fn bytes_of(b: BytesMut) -> Seq<u8>;

/// Relies on `bytes::BytesMut::new`: a fresh buffer is empty.
#[verifier::external_body]
pub(crate) fn bm_new() -> (b: BytesMut)
    ensures
        bytes_of(b) == Seq::<u8>::empty(),
{
    BytesMut::new()
}

/// Relies on `bytes::BytesMut::from(&[u8])`: the buffer holds a copy of the
/// slice.
#[verifier::external_body]
pub(crate) fn bm_from_slice(s: &[u8]) -> (b: BytesMut)
    ensures
        bytes_of(b) == s@,
{
    BytesMut::from(s)
}

/// Relies on `bytes::BytesMut::len`.
#[verifier::external_body]
pub(crate) fn bm_len(b: &BytesMut) -> (n: usize)
    ensures
        n == bytes_of(*b).len(),
{
    b.len()
}

/// Relies on `bytes::BytesMut`'s `Deref` to `[u8]`: a view of the bytes the
/// buffer holds.
#[verifier::external_body]
pub(crate) fn bm_as_slice(b: &BytesMut) -> (s: &[u8])
    ensures
        s@ == bytes_of(*b),
{
    b.as_ref()
}

/// Relies on `bytes::BufMut::put_u16_le`: appends the two little-endian
/// bytes of `n` (it panics only past `BytesMut`'s maximum allocation,
/// `isize::MAX` bytes).
#[verifier::external_body]
pub(crate) fn bm_put_u16_le(b: &mut BytesMut, n: u16)
    requires
        bytes_of(*old(b)).len() + 2 <= isize::MAX,
    ensures
        bytes_of(*final(b)) == bytes_of(*old(b)) + le16_bytes(n),
{
    b.put_u16_le(n)
}

/// Relies on `bytes::BufMut::put_u8`: appends the single byte `n` (it
/// panics only past `BytesMut`'s maximum allocation, `isize::MAX` bytes).
#[verifier::external_body]
pub(crate) fn bm_put_u8(b: &mut BytesMut, n: u8)
    requires
        bytes_of(*old(b)).len() + 1 <= isize::MAX,
    ensures
        bytes_of(*final(b)) == bytes_of(*old(b)) + seq![n],
{
    b.put_u8(n)
}

/// Relies on `bytes::BufMut::put_slice`: appends a copy of the slice (it
/// panics only when the result would exceed `BytesMut`'s maximum
/// allocation, `isize::MAX` bytes).
#[verifier::external_body]
pub(crate) fn bm_put_slice(b: &mut BytesMut, s: &[u8])
    requires
        bytes_of(*old(b)).len() + s@.len() <= isize::MAX,
    ensures
        bytes_of(*final(b)) == bytes_of(*old(b)) + s@,
{
    b.put_slice(s)
}

/// Relies on `bytes::Buf::get_u16_le`: reads the first two bytes as a
/// little-endian 16-bit value and consumes them (it panics on a shorter
/// buffer, so that case is excluded here).
#[verifier::external_body]
pub(crate) fn bm_get_u16_le(b: &mut BytesMut) -> (n: u16)
    requires
        bytes_of(*old(b)).len() >= 2,
    ensures
        n as int == le16_value(bytes_of(*old(b))[0], bytes_of(*old(b))[1]),
        bytes_of(*final(b)) == bytes_of(*old(b)).skip(2),
{
    b.get_u16_le()
}

/// Relies on `bytes::Buf::get_u8`: reads and consumes the first byte (it
/// panics on an empty buffer, so that case is excluded here).
#[verifier::external_body]
pub(crate) fn bm_get_u8(b: &mut BytesMut) -> (n: u8)
    requires
        bytes_of(*old(b)).len() >= 1,
    ensures
        n == bytes_of(*old(b))[0],
        bytes_of(*final(b)) == bytes_of(*old(b)).skip(1),
{
    b.get_u8()
}

/// Copies `src[start..end]` into an owned vector.
pub(crate) fn copy_range(src: &[u8], start: usize, end: usize) -> (out: Vec<u8>)
    requires
        start <= end <= src@.len(),
    ensures
        out@ == src@.subrange(start as int, end as int),
{
    let mut out: Vec<u8> = Vec::new();
    let mut i: usize = start;
    while i < end
        invariant
            start <= i <= end <= src@.len(),
            out@ == src@.subrange(start as int, i as int),
        decreases end - i,
    {
        let byte: u8 = *vstd::slice::slice_index_get(src, i);
        out.push(byte);
        i = i + 1;
        assert(out@ =~= src@.subrange(start as int, i as int));
    }
    out
}

/// Whether two byte strings hold the same bytes.
pub(crate) fn bytes_equal(a: &[u8], b: &[u8]) -> (eq: bool)
    ensures
        eq <==> a@ == b@,
{
    if a.len() != b.len() {
        return false;
    }
    let mut i: usize = 0;
    while i < a.len()
        invariant
            0 <= i <= a@.len(),
            a@.len() == b@.len(),
            forall|j: int| 0 <= j < i ==> a@[j] == b@[j],
        decreases a@.len() - i,
    {
        if *vstd::slice::slice_index_get(a, i) != *vstd::slice::slice_index_get(b, i) {
            return false;
        }
        i = i + 1;
    }
    proof {
        assert(a@ =~= b@);
    }
    true
}

} // verus!
