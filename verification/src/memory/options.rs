//! Configuration for a [`Log`](crate::memory): the total capacity of the log
//! in bytes and the capacity of each of its segments.

use vstd::prelude::*;

verus! {

/// How many segments a log of `log_size_bytes` total capacity needs when each
/// segment holds `segment_size_bytes`: the quotient, rounded up.
pub open spec fn spec_number_of_segments(log_size_bytes: int, segment_size_bytes: int) -> int {
    if log_size_bytes % segment_size_bytes != 0 {
        log_size_bytes / segment_size_bytes + 1
    } else {
        log_size_bytes / segment_size_bytes
    }
}

/// The two capacities a log is built from: total bytes and bytes per segment.
pub struct LogOptions {
    log_size_bytes: usize,
    segment_size_bytes: usize,
}

impl LogOptions {
    /// Both capacities must be positive and the total must cover at least one
    /// segment; anything else is construction-time misuse.
    pub fn new(log_size_bytes: usize, segment_size_bytes: usize) -> (options: Self)
        requires
            0 < segment_size_bytes <= log_size_bytes,
        ensures
            options.spec_log_size() == log_size_bytes,
            options.spec_segment_size() == segment_size_bytes,
    {
        LogOptions { log_size_bytes, segment_size_bytes }
    }

    pub closed spec fn spec_log_size(self) -> usize {
        self.log_size_bytes
    }

    pub closed spec fn spec_segment_size(self) -> usize {
        self.segment_size_bytes
    }

    /// The number of segments the log will hold: total capacity divided by
    /// segment capacity, rounded up.
    pub fn number_of_segments(&self) -> (n: usize)
        requires
            0 < self.spec_segment_size() <= self.spec_log_size(),
        ensures
            n == spec_number_of_segments(self.spec_log_size() as int, self.spec_segment_size() as int),
            n >= 1,
    {
        proof {
            vstd::arithmetic::div_mod::lemma_div_non_zero(
                self.log_size_bytes as int,
                self.segment_size_bytes as int,
            );
        }
        if self.log_size_bytes % self.segment_size_bytes != 0 {
            proof {
                vstd::arithmetic::div_mod::lemma_div_is_strictly_smaller(
                    self.log_size_bytes as int,
                    self.segment_size_bytes as int,
                );
            }
            return self.log_size_bytes / self.segment_size_bytes + 1;
        }
        return self.log_size_bytes / self.segment_size_bytes;
    }

    /// The capacity, in bytes, of each segment.
    pub fn segment_size(&self) -> (s: usize)
        ensures
            s == self.spec_segment_size(),
    {
        self.segment_size_bytes
    }
}

} // verus!
