//! The log storage engine: an ordered, fixed-length sequence of segments,
//! one key index, and a tail cursor pointing at the segment currently
//! accepting writes. Appends roll the tail forward by at most one segment;
//! the tail never moves back, so once the last segment rejects a write the
//! log is permanently full.

use vstd::prelude::*;
use bytes::BytesMut;

use crate::memory::index::{Index, IndexMarker};
use crate::memory::key_value::KeyValue;
use crate::memory::options::{spec_number_of_segments, LogOptions};
use crate::memory::segment::Segment;
use crate::wire::{
    bm_as_slice, bm_from_slice, bm_len, bytes_of, lemma_record_round_trip, spec_encode_record,
    spec_parse_record, spec_record_key_len, spec_record_value_len, DecodeError,
};

verus! {

/// The number of bytes a record with this key and value occupies in a
/// segment: two 16-bit length headers, then the key and value bytes.
pub open spec fn spec_encoded_len(key: Seq<u8>, value: Seq<u8>) -> int {
    4 + key.len() as int + value.len() as int
}

/// The append-only segmented log with its key index.
pub struct Log {
    segments: Vec<Segment>,
    index: Index,
    segment_tail: usize,
}

impl View for Log {
    type V = Map<Seq<u8>, Seq<u8>>;

    /// The mapping the log holds: each appended key to the value of its most
    /// recent record.
    closed spec fn view(&self) -> Map<Seq<u8>, Seq<u8>> {
        Map::new(
            |k: Seq<u8>| self.index@.contains_key(k),
            |k: Seq<u8>| spec_parse_record(self.record_bytes(self.index@[k])).unwrap().1,
        )
    }
}

impl Log {
    /// How many segments the log owns; fixed at construction.
    pub closed spec fn spec_segment_count(self) -> int {
        self.segments@.len() as int
    }

    /// The capacity every segment was created with.
    pub closed spec fn spec_segment_capacity(self) -> int {
        self.segments@[0].spec_capacity() as int
    }

    /// Which segment currently accepts writes; monotonically non-decreasing.
    pub closed spec fn spec_tail(self) -> int {
        self.segment_tail as int
    }

    /// How many bytes the tail segment still admits.
    pub closed spec fn spec_tail_available(self) -> int {
        self.segments@[self.spec_tail()].spec_available_capacity() as int
    }

    /// The byte range a marker addresses.
    closed spec fn record_bytes(self, marker: IndexMarker) -> Seq<u8> {
        self.segments@[marker.segment_index as int].spec_bytes().subrange(
            marker.segment_position as int,
            marker.segment_position + marker.key_value_size,
        )
    }

    /// A marker is consistent: it addresses written bytes, and those bytes
    /// decode to a record whose key is the key the index holds it under.
    closed spec fn marker_wf(self, k: Seq<u8>, marker: IndexMarker) -> bool {
        &&& marker.segment_index < self.segments@.len()
        &&& marker.segment_position + marker.key_value_size <= self.segments@[marker.segment_index as int].spec_bytes().len()
        &&& marker.key_value_size >= 4
        &&& spec_record_key_len(self.record_bytes(marker)) > 0
        &&& spec_record_value_len(self.record_bytes(marker)) > 0
        &&& spec_parse_record(self.record_bytes(marker)) is Some
        &&& spec_parse_record(self.record_bytes(marker)).unwrap().0 == k
    }

    /// Well-formedness: the tail is in bounds, all segments share one
    /// capacity and are internally consistent, segments past the tail are
    /// still untouched, and every index entry addresses a record that
    /// decodes to its key. Constructors establish it and every operation
    /// preserves it.
    pub closed spec fn wf(self) -> bool {
        &&& self.segments@.len() >= 1
        &&& self.segment_tail < self.segments@.len()
        &&& self.index.wf()
        &&& forall|i: int| 0 <= i < self.segments@.len() ==> (#[trigger] self.segments@[i]).wf()
        &&& forall|i: int|
            0 <= i < self.segments@.len() ==> (#[trigger] self.segments@[i]).spec_capacity()
                == self.segments@[0].spec_capacity()
        &&& forall|i: int|
            self.spec_tail() < i < self.segments@.len() ==> (
            #[trigger] self.segments@[i]).spec_bytes().len() == 0
        &&& forall|k: Seq<u8>| #[trigger]
            self.index@.contains_key(k) ==> self.marker_wf(k, self.index@[k])
    }

    /// Whether a record of this encoded length can still be admitted: it
    /// fits the tail segment, or a next segment exists and a whole empty
    /// segment holds it.
    pub open spec fn spec_can_append(self, encoded_len: int) -> bool {
        encoded_len <= self.spec_tail_available() || (self.spec_tail() + 1
            < self.spec_segment_count() && encoded_len <= self.spec_segment_capacity())
    }

    /// Builds the log: `ceil(total / per-segment)` empty segments and an
    /// empty index.
    pub fn new(options: LogOptions) -> (log: Self)
        requires
            0 < options.spec_segment_size() <= options.spec_log_size(),
        ensures
            log.wf(),
            log@ == Map::<Seq<u8>, Seq<u8>>::empty(),
            log.spec_segment_count() == spec_number_of_segments(
                options.spec_log_size() as int,
                options.spec_segment_size() as int,
            ),
            log.spec_segment_capacity() == options.spec_segment_size(),
            log.spec_tail() == 0,
            log.spec_tail_available() == options.spec_segment_size(),
    {
        let count = options.number_of_segments();
        let segment_size = options.segment_size();
        let mut segments: Vec<Segment> = Vec::new();
        let mut i: usize = 0;
        while i < count
            invariant
                0 <= i <= count,
                segments@.len() == i,
                segment_size > 0,
                forall|j: int|
                    0 <= j < i ==> (#[trigger] segments@[j]).wf() && segments@[j].spec_capacity()
                        == segment_size && segments@[j].spec_bytes().len() == 0
                        && segments@[j].spec_available_capacity() == segment_size,
            decreases count - i,
        {
            segments.push(Segment::new(segment_size));
            i = i + 1;
        }
        let log = Log { segments, index: Index::new(), segment_tail: 0 };
        proof {
            assert(log@ =~= Map::<Seq<u8>, Seq<u8>>::empty());
        }
        log
    }

    /// Writes the encoded record into the tail segment, or, when it does not
    /// fit and a next segment exists, advances the tail by exactly one and
    /// retries once. The tail advance is permanent even when the retry also
    /// fails. The index is not touched.
    fn try_append_to_segment(&mut self, encoded: &BytesMut) -> (appended: Option<usize>)
        requires
            old(self).wf(),
        ensures
            final(self).wf(),
            final(self).index == old(self).index,
            final(self).spec_segment_count() == old(self).spec_segment_count(),
            final(self).spec_segment_capacity() == old(self).spec_segment_capacity(),
            appended is Some <==> old(self).spec_can_append(bytes_of(*encoded).len() as int),
            final(self).spec_tail() == if bytes_of(*encoded).len()
                <= old(self).spec_tail_available() {
                old(self).spec_tail()
            } else if old(self).spec_tail() + 1 < old(self).spec_segment_count() {
                old(self).spec_tail() + 1
            } else {
                old(self).spec_tail()
            },
            final(self).spec_tail_available() == if bytes_of(*encoded).len()
                <= old(self).spec_tail_available() {
                old(self).spec_tail_available() - bytes_of(*encoded).len()
            } else if old(self).spec_tail() + 1 < old(self).spec_segment_count() {
                if bytes_of(*encoded).len() <= old(self).spec_segment_capacity() {
                    old(self).spec_segment_capacity() - bytes_of(*encoded).len()
                } else {
                    old(self).spec_segment_capacity()
                }
            } else {
                old(self).spec_tail_available()
            },
            match appended {
                Some(position) => {
                    let t = final(self).spec_tail();
                    &&& position == old(self).segments@[t].spec_bytes().len()
                    &&& final(self).segments@[t].spec_bytes()
                        == old(self).segments@[t].spec_bytes() + bytes_of(*encoded)
                    &&& forall|i: int|
                        0 <= i < old(self).spec_segment_count() && i != t
                            ==> final(self).segments@[i] == old(self).segments@[i]
                },
                None => forall|i: int|
                    0 <= i < old(self).spec_segment_count()
                        ==> final(self).segments@[i] == old(self).segments@[i],
            },
    {
        let slice = bm_as_slice(encoded);
        let tail = self.segment_tail;
        let (position, ok) = vstd::std_specs::vec::vec_index_mut(&mut self.segments, tail)
            .try_append(slice);
        if ok {
            proof {
                assert(old(self).segments@[tail as int].spec_bytes()
                    =~= self.segments@[tail as int].spec_bytes().subrange(
                    0,
                    old(self).segments@[tail as int].spec_bytes().len() as int,
                ));
                self.lemma_extension_preserves_markers(*old(self), tail as int);
            }
            return Some(position);
        }
        proof {
            assert(self.segments@ =~= old(self).segments@);
        }
        if self.segment_tail == self.segments.len() - 1 {
            return None;
        }
        self.segment_tail = self.segment_tail + 1;
        proof {
            let t = self.segment_tail as int;
            assert(old(self).segments@[t].spec_bytes().len() == 0);
            assert(old(self).segments@[t].wf());
            assert(old(self).segments@[t].spec_available_capacity() as int == old(
                self,
            ).spec_segment_capacity());
        }
        let tail = self.segment_tail;
        let (position, ok) = vstd::std_specs::vec::vec_index_mut(&mut self.segments, tail)
            .try_append(slice);
        if ok {
            proof {
                assert(old(self).segments@[tail as int].spec_bytes()
                    =~= self.segments@[tail as int].spec_bytes().subrange(
                    0,
                    old(self).segments@[tail as int].spec_bytes().len() as int,
                ));
                self.lemma_extension_preserves_markers(*old(self), tail as int);
            }
            return Some(position);
        }
        return None;
    }

    /// Appending to one segment leaves every marker of the old state
    /// addressing the same bytes: a segment only ever grows at its end.
    proof fn lemma_extension_preserves_markers(self, earlier: Log, t: int)
        requires
            earlier.wf(),
            self.index == earlier.index,
            self.segments@.len() == earlier.segments@.len(),
            0 <= t < self.segments@.len(),
            earlier.segments@[t].spec_bytes().len() <= self.segments@[t].spec_bytes().len(),
            earlier.segments@[t].spec_bytes() == self.segments@[t].spec_bytes().subrange(
                0,
                earlier.segments@[t].spec_bytes().len() as int,
            ),
            forall|i: int| 0 <= i < self.segments@.len() && i != t ==> self.segments@[i]
                == earlier.segments@[i],
        ensures
            forall|k: Seq<u8>| #[trigger]
                self.index@.contains_key(k) ==> self.marker_wf(k, self.index@[k])
                    && self.record_bytes(self.index@[k]) == earlier.record_bytes(
                    self.index@[k],
                ),
    {
        assert forall|k: Seq<u8>| #[trigger] self.index@.contains_key(k) implies self.marker_wf(
            k,
            self.index@[k],
        ) && self.record_bytes(self.index@[k]) == earlier.record_bytes(self.index@[k]) by {
            let marker = self.index@[k];
            assert(earlier.marker_wf(k, marker));
            if marker.segment_index == t {
                assert(self.record_bytes(marker) =~= earlier.record_bytes(marker));
            } else {
                assert(self.record_bytes(marker) == earlier.record_bytes(marker));
            }
        }
    }

    /// What one append guarantees: it succeeds exactly when the encoded
    /// record still fits (see [`Log::spec_can_append`]), and then maps the
    /// key to the appended value; on failure the mapping is unchanged.
    /// The tail and the tail segment's remaining capacity evolve exactly as
    /// the rollover policy says: a record that fits the tail segment leaves
    /// the tail in place and consumes exactly its encoded length there;
    /// otherwise, when a next segment exists, the tail advances by exactly
    /// one — permanently, even when the record does not fit the fresh
    /// segment either — and the fresh segment's capacity is consumed on
    /// success; when the tail is already the last segment nothing changes
    /// and the log is permanently full for records of that size.
    pub open spec fn append_post(pre: Log, post: Log, key: Seq<u8>, value: Seq<u8>, success: bool) -> bool {
        let encoded_len = spec_encoded_len(key, value);
        &&& post.spec_segment_count() == pre.spec_segment_count()
        &&& post.spec_segment_capacity() == pre.spec_segment_capacity()
        &&& success == pre.spec_can_append(encoded_len)
        &&& (success ==> post@ == pre@.insert(key, value))
        &&& (!success ==> post@ == pre@)
        &&& (if encoded_len <= pre.spec_tail_available() {
            &&& post.spec_tail() == pre.spec_tail()
            &&& post.spec_tail_available() == pre.spec_tail_available() - encoded_len
        } else if pre.spec_tail() + 1 < pre.spec_segment_count() {
            &&& post.spec_tail() == pre.spec_tail() + 1
            &&& post.spec_tail_available() == if encoded_len <= pre.spec_segment_capacity() {
                pre.spec_segment_capacity() - encoded_len
            } else {
                pre.spec_segment_capacity()
            }
        } else {
            &&& post.spec_tail() == pre.spec_tail()
            &&& post.spec_tail_available() == pre.spec_tail_available()
        })
        &&& pre.spec_tail() <= post.spec_tail() < pre.spec_segment_count()
    }

    /// Serialises the record, writes it with at most one tail rollover, and
    /// on success records the new location in the index. Succeeds if and
    /// only if the encoded record fits the tail segment or, after a
    /// rollover, a whole empty segment. On failure nothing the log maps is
    /// changed, though a failed rollover still advances the tail for good.
    pub fn try_append(&mut self, key_value: KeyValue) -> (success: bool)
        requires
            old(self).wf(),
        ensures
            final(self).wf(),
            Self::append_post(
                *old(self),
                *final(self),
                key_value.spec_key(),
                key_value.spec_value(),
                success,
            ),
    {
        proof {
            use_type_invariant(&key_value);
        }
        let ghost key = key_value.spec_key();
        let ghost value = key_value.spec_value();
        let encoded = key_value.encode();
        proof {
            lemma_record_round_trip(key, value);
        }
        let encoded_len = bm_len(&encoded);
        let ghost mid = *old(self);
        let appended = self.try_append_to_segment(&encoded);
        let ghost written = *self;
        match appended {
            Some(position) => {
                let tail = self.segment_tail;
                let marker = IndexMarker::new(tail, position, encoded_len);
                proof {
                    let t = written.spec_tail();
                    assert(old(self).segments@[t].spec_bytes()
                        =~= written.segments@[t].spec_bytes().subrange(
                        0,
                        old(self).segments@[t].spec_bytes().len() as int,
                    ));
                    written.lemma_extension_preserves_markers(*old(self), t);
                    assert(written.record_bytes(marker) =~= bytes_of(encoded));
                }
                self.index.insert(key_value.key(), marker);
                proof {
                    assert(self.segments@ == written.segments@);
                    assert(self.record_bytes(marker) == written.record_bytes(marker));
                    assert(self.marker_wf(key, marker));
                    assert forall|k2: Seq<u8>| #[trigger]
                        self.index@.contains_key(k2) implies self.marker_wf(
                        k2,
                        self.index@[k2],
                    ) by {
                        if k2 != key {
                            assert(written.index@.contains_key(k2));
                            assert(written.marker_wf(k2, written.index@[k2]));
                            assert(self.index@[k2] == written.index@[k2]);
                            assert(self.record_bytes(written.index@[k2]) == written.record_bytes(
                                written.index@[k2],
                            ));
                        }
                    }
                    assert(final(self)@ =~= old(self)@.insert(key, value));
                }
                true
            },
            None => {
                proof {
                    assert(self.segments@ =~= old(self).segments@);
                    assert(final(self)@ =~= old(self)@);
                }
                false
            },
        }
    }

    /// What a lookup must return: nothing exactly when the key was never
    /// appended, and otherwise the successfully decoded record holding the
    /// key and the value of its most recent append.
    pub open spec fn get_post(
        log: Log,
        key: Seq<u8>,
        result: Option<Result<KeyValue, DecodeError>>,
    ) -> bool {
        match result {
            None => !log@.contains_key(key),
            Some(decoded) => log@.contains_key(key) && match decoded {
                Ok(key_value) => key_value.spec_key() == key && key_value.spec_value()
                    == log@[key],
                Err(_) => false,
            },
        }
    }

    /// Looks the key up in the index and, when present, reads the exact byte
    /// range out of the addressed segment and decodes it. "Key not found" is
    /// the `None` result, distinct from a decode failure; with a well-formed
    /// log the decode in fact always succeeds, as the contract states.
    pub fn try_get(&self, key: &[u8]) -> (result: Option<Result<KeyValue, DecodeError>>)
        requires
            self.wf(),
        ensures
            Self::get_post(*self, key@, result),
    {
        let marker_opt = self.index.get(key);
        match marker_opt {
            None => None,
            Some(marker) => {
                let segment_index = marker.segment_index;
                let position = marker.segment_position;
                let size = marker.key_value_size;
                proof {
                    assert(self.marker_wf(key@, self.index@[key@]));
                }
                let segment = vstd::std_specs::vec::vec_index(&self.segments, segment_index);
                let raw = segment.get(position, size);
                let buffer = bm_from_slice(raw);
                let decoded = KeyValue::decode_from(buffer);
                Some(decoded)
            },
        }
    }
}

/// Looking a key up twice with no write in between returns equal results:
/// both absent, or both the same successfully decoded record.
pub proof fn lemma_get_idempotent(
    log: Log,
    key: Seq<u8>,
    first: Option<Result<KeyValue, DecodeError>>,
    second: Option<Result<KeyValue, DecodeError>>,
)
    requires
        Log::get_post(log, key, first),
        Log::get_post(log, key, second),
    ensures
        match (first, second) {
            (None, None) => true,
            (Some(Ok(a)), Some(Ok(b))) => a.spec_key() == b.spec_key() && a.spec_value()
                == b.spec_value(),
            _ => false,
        },
{
}

/// After a successful append of a record, looking its key up returns exactly
/// the appended value.
pub proof fn lemma_append_then_get(
    log: Log,
    before: Map<Seq<u8>, Seq<u8>>,
    key: Seq<u8>,
    value: Seq<u8>,
    result: Option<Result<KeyValue, DecodeError>>,
)
    requires
        log@ == before.insert(key, value),
        Log::get_post(log, key, result),
    ensures
        result matches Some(Ok(key_value)) && key_value.spec_key() == key
            && key_value.spec_value() == value,
{
}

/// Appending two records with the same key leaves the second value as the
/// one a lookup returns: last write wins.
pub proof fn lemma_overwrite_last_wins(
    log: Log,
    before: Map<Seq<u8>, Seq<u8>>,
    key: Seq<u8>,
    first_value: Seq<u8>,
    second_value: Seq<u8>,
    result: Option<Result<KeyValue, DecodeError>>,
)
    requires
        log@ == before.insert(key, first_value).insert(key, second_value),
        Log::get_post(log, key, result),
    ensures
        result matches Some(Ok(key_value)) && key_value.spec_value() == second_value,
{
}

} // verus!
