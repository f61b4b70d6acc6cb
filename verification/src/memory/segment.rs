//! A single fixed-capacity append-only byte buffer. Writes are
//! all-or-nothing: a slice is admitted exactly when it fits the remaining
//! capacity, and is never split.

use vstd::prelude::*;

verus! {

/// A fixed-capacity append-only byte buffer with exact-capacity admission
/// control: `bytes written + available capacity == capacity` at all times.
pub struct Segment {
    buffer: Vec<u8>,
    available_capacity: usize,
    capacity: usize,
}

impl Segment {
    /// Well-formedness: the bytes written and the capacity still available
    /// always account exactly for the fixed capacity. Constructors establish
    /// it and every operation preserves it.
    pub open spec fn wf(self) -> bool {
        self.spec_bytes().len() + self.spec_available_capacity() == self.spec_capacity()
    }

    /// The bytes written so far, in order.
    pub closed spec fn spec_bytes(self) -> Seq<u8> {
        self.buffer@
    }

    /// How many more bytes this segment admits.
    pub closed spec fn spec_available_capacity(self) -> usize {
        self.available_capacity
    }

    /// The fixed capacity this segment was created with.
    pub closed spec fn spec_capacity(self) -> usize {
        self.capacity
    }

    /// A zero capacity is construction-time misuse and is excluded here.
    pub fn new(capacity: usize) -> (segment: Self)
        requires
            capacity > 0,
        ensures
            segment.wf(),
            segment.spec_bytes() == Seq::<u8>::empty(),
            segment.spec_available_capacity() == capacity,
            segment.spec_capacity() == capacity,
    {
        Segment { buffer: Vec::with_capacity(capacity), available_capacity: capacity, capacity }
    }

    /// Appends the slice at the end of the buffer and returns the offset it
    /// was written at, if and only if it fits the available capacity;
    /// otherwise leaves the segment unchanged. No partial writes.
    pub fn try_append(&mut self, slice: &[u8]) -> (result: (usize, bool))
        requires
            old(self).wf(),
        ensures
            final(self).wf(),
            final(self).spec_capacity() == old(self).spec_capacity(),
            result.1 <==> slice@.len() <= old(self).spec_available_capacity(),
            result.1 ==> {
                &&& result.0 == old(self).spec_bytes().len()
                &&& final(self).spec_bytes() == old(self).spec_bytes() + slice@
                &&& final(self).spec_available_capacity() == old(
                    self,
                ).spec_available_capacity() - slice@.len()
            },
            !result.1 ==> *final(self) == *old(self) && result.0 == 0,
    {
        if self.available_capacity >= slice.len() {
            let index = self.buffer.len();
            self.buffer.extend_from_slice(slice);
            self.available_capacity = self.available_capacity - slice.len();
            proof {
                assert(self.buffer@ =~= old(self).buffer@ + slice@);
            }
            return (index, true);
        }
        return (0, false);
    }

    /// Reads exactly `size` bytes starting at `index`. A range that runs past
    /// the written bytes is a programming error, excluded here: offsets
    /// originate only from the index, which the log keeps consistent.
    pub fn get(&self, index: usize, size: usize) -> (bytes: &[u8])
        requires
            size > 0,
            index + size <= self.spec_bytes().len(),
        ensures
            bytes@ == self.spec_bytes().subrange(index as int, index as int + size as int),
    {
        let buffer_len = self.buffer.len();
        assert(index + size <= buffer_len);
        vstd::slice::slice_subrange(self.buffer.as_slice(), index, index + size)
    }

    /// Whether nothing has been written yet.
    pub fn is_empty(&self) -> (empty: bool)
        requires
            self.wf(),
        ensures
            empty <==> self.spec_bytes().len() == 0,
            empty <==> self.spec_available_capacity() == self.spec_capacity(),
    {
        self.available_capacity == self.capacity
    }

    /// Whether no byte of capacity remains.
    pub fn is_full(&self) -> (full: bool)
        ensures
            full <==> self.spec_available_capacity() == 0,
    {
        self.available_capacity == 0
    }
}

} // verus!
