//! The queue's cursors: `usize` positions held in atomics, each padded to
//! its own cache line (via `crossbeam_utils::CachePadded`) so the producer's
//! and consumer's hot paths do not falsely share one.
//!
//! The memory orderings follow the queue's publication protocol: a cursor is
//! published with release semantics after the slot it covers is written, and
//! read with acquire semantics by the other side before that slot is read;
//! a side reads its own cursor relaxed. The contracts here describe the
//! cursor as its owner sees it; the exactly-one-producer/one-consumer
//! discipline is the queue's precondition.

use vstd::prelude::*;
use core::sync::atomic::{AtomicUsize, Ordering};
use crossbeam_utils::CachePadded;

verus! {

#[verifier::external_type_specification]
#[verifier::external_body]
#[verifier::reject_recursive_types(T)]
pub struct ExCachePadded<T>(CachePadded<T>);

/// The position a padded atomic cursor currently holds.
pub uninterp spec fn cursor_value(cursor: CachePadded<AtomicUsize>) -> usize;

/// Relies on `crossbeam_utils::CachePadded::new` and
/// `core::sync::atomic::AtomicUsize::new`: the cursor starts at `value`.
#[verifier::external_body]
pub(crate) fn cursor_new(value: usize) -> (cursor: CachePadded<AtomicUsize>)
    ensures
        cursor_value(cursor) == value,
{
    CachePadded::new(AtomicUsize::new(value))
}

/// Relies on `core::sync::atomic::AtomicUsize::load` with `Relaxed`
/// ordering: reads the cursor's value (a side reading its own cursor).
#[verifier::external_body]
pub(crate) fn cursor_load_relaxed(cursor: &CachePadded<AtomicUsize>) -> (value: usize)
    ensures
        value == cursor_value(*cursor),
{
    cursor.load(Ordering::Relaxed)
}

/// Relies on `core::sync::atomic::AtomicUsize::load` with `Acquire`
/// ordering: reads the cursor's value, observing every write published
/// before the matching release store.
#[verifier::external_body]
pub(crate) fn cursor_load_acquire(cursor: &CachePadded<AtomicUsize>) -> (value: usize)
    ensures
        value == cursor_value(*cursor),
{
    cursor.load(Ordering::Acquire)
}

/// Relies on `core::sync::atomic::AtomicUsize::store` with `Release`
/// ordering: publishes `value`, making every earlier write visible to an
/// acquire reader that observes it.
#[verifier::external_body]
pub(crate) fn cursor_store_release(cursor: &mut CachePadded<AtomicUsize>, value: usize)
    ensures
        cursor_value(*final(cursor)) == value,
{
    cursor.store(value, Ordering::Release)
}

} // verus!
