//! A fixed-capacity lock-free ring buffer for exactly one producer thread
//! and one consumer thread. One physical slot beyond the logical capacity
//! disambiguates full from empty: `head == tail` means empty and
//! `(tail + 1) mod storage == head` means full. Only the producer advances
//! `tail`; only the consumer advances `head`. Neither side ever blocks: a
//! full queue refuses an enqueue and an empty one yields no front element.
//!
//! The single-producer/single-consumer discipline is a precondition, not a
//! runtime check; the contracts describe the queue as its owner sees it.

use vstd::prelude::*;
use vstd::pervasive::unreached;
use vstd::pervasive::VecAdditionalExecFns;
use core::sync::atomic::AtomicUsize;
use crossbeam_utils::CachePadded;

use crate::queue::cursor::{
    cursor_load_acquire, cursor_load_relaxed, cursor_new, cursor_store_release, cursor_value,
};

verus! {

/// How many elements sit between the cursors of a ring with `storage`
/// physical slots.
pub open spec fn ring_length(head: int, tail: int, storage: int) -> int {
    if tail >= head {
        tail - head
    } else {
        tail - head + storage
    }
}

/// The physical slot holding the element `offset` places after `head`.
spec fn ring_index(head: int, offset: int, storage: int) -> int {
    if head + offset < storage {
        head + offset
    } else {
        head + offset - storage
    }
}

/// The lock-free single-producer/single-consumer ring buffer.
pub struct SPSCQueue<T> {
    head: CachePadded<AtomicUsize>,
    tail: CachePadded<AtomicUsize>,
    elements: Vec<Option<T>>,
}

impl<T> View for SPSCQueue<T> {
    type V = Seq<T>;

    /// The elements currently queued, oldest first.
    closed spec fn view(&self) -> Seq<T> {
        Seq::new(
            ring_length(self.head_value(), self.tail_value(), self.storage()) as nat,
            |i: int| self.elements@[ring_index(self.head_value(), i, self.storage())].unwrap(),
        )
    }
}

impl<T> SPSCQueue<T> {
    /// The number of physical slots: one more than the usable capacity.
    closed spec fn storage(self) -> int {
        self.elements@.len() as int
    }

    /// The usable capacity: how many elements the queue holds when full.
    pub closed spec fn spec_capacity(self) -> int {
        self.elements@.len() - 1
    }

    /// The consumer's cursor: the next slot to pop.
    closed spec fn head_value(self) -> int {
        cursor_value(self.head) as int
    }

    /// The producer's cursor: the next slot to push.
    closed spec fn tail_value(self) -> int {
        cursor_value(self.tail) as int
    }

    /// Well-formedness: both cursors address physical slots and every
    /// queued slot actually holds an element. Constructors establish it and
    /// every operation preserves it.
    pub closed spec fn wf(self) -> bool {
        &&& self.elements@.len() >= 1
        &&& 0 <= self.head_value() < self.storage()
        &&& 0 <= self.tail_value() < self.storage()
        &&& forall|i: int|
            0 <= i < ring_length(self.head_value(), self.tail_value(), self.storage()) ==> (
            #[trigger] self.elements@[ring_index(self.head_value(), i, self.storage())]) is Some
    }

    /// A fresh, empty queue with exactly `capacity` usable slots. One extra
    /// physical slot is allocated, so the capacity must leave room for it.
    pub fn new(capacity: usize) -> (queue: Self)
        requires
            capacity < usize::MAX,
        ensures
            queue.wf(),
            queue@ == Seq::<T>::empty(),
            queue.spec_capacity() == capacity,
    {
        let storage = capacity + 1;
        let mut elements: Vec<Option<T>> = Vec::new();
        let mut i: usize = 0;
        while i < storage
            invariant
                0 <= i <= storage,
                elements@.len() == i,
            decreases storage - i,
        {
            elements.push(None);
            i = i + 1;
        }
        let queue = SPSCQueue { head: cursor_new(0), tail: cursor_new(0), elements };
        proof {
            assert(queue@ =~= Seq::<T>::empty());
        }
        queue
    }

    /// A momentary snapshot: whether the queue holds no element. Under
    /// concurrent modification it is informational only.
    pub fn is_empty(&self) -> (empty: bool)
        requires
            self.wf(),
        ensures
            empty <==> self@.len() == 0,
    {
        cursor_load_acquire(&self.head) == cursor_load_acquire(&self.tail)
    }

    /// Called only by the producer. Stores the element at the tail slot and
    /// publishes the new tail, unless the queue is full, in which case the
    /// queue is left unchanged.
    pub fn try_enqueue(&mut self, element: T) -> (success: bool)
        requires
            old(self).wf(),
        ensures
            final(self).wf(),
            final(self).spec_capacity() == old(self).spec_capacity(),
            success <==> old(self)@.len() < old(self).spec_capacity(),
            success ==> final(self)@ == old(self)@.push(element),
            !success ==> final(self)@ == old(self)@,
    {
        let storage = self.elements.len();
        let tail = cursor_load_relaxed(&self.tail);
        assert(tail < storage);
        let mut next_tail = tail + 1;
        if next_tail == storage {
            next_tail = 0;
        }
        let head = cursor_load_acquire(&self.head);
        if next_tail == head {
            return false;
        }
        self.elements.set(tail, Some(element));
        cursor_store_release(&mut self.tail, next_tail);
        proof {
            assert(self@ =~= old(self)@.push(element));
        }
        true
    }

    /// Called only by the consumer. Borrows the element at the head slot
    /// without removing it, or nothing when the queue is empty.
    pub fn try_get_front(&self) -> (front: Option<&T>)
        requires
            self.wf(),
        ensures
            match front {
                Some(element) => self@.len() > 0 && *element == self@[0],
                None => self@.len() == 0,
            },
    {
        let head = cursor_load_relaxed(&self.head);
        let tail = cursor_load_acquire(&self.tail);
        if tail == head {
            return None;
        }
        proof {
            assert(self.elements@[ring_index(self.head_value(), 0, self.storage())] is Some);
        }
        match vstd::std_specs::vec::vec_index(&self.elements, head) {
            Some(element) => Some(element),
            None => unreached(),
        }
    }

    /// Called only by the consumer, only after a successful `try_get_front`
    /// observed an element: advances the head past it.
    pub fn pop(&mut self)
        requires
            old(self).wf(),
            old(self)@.len() > 0,
        ensures
            final(self).wf(),
            final(self).spec_capacity() == old(self).spec_capacity(),
            final(self)@ == old(self)@.skip(1),
    {
        let storage = self.elements.len();
        let head = cursor_load_relaxed(&self.head);
        assert(head < storage);
        let mut next_head = head + 1;
        if next_head == storage {
            next_head = 0;
        }
        cursor_store_release(&mut self.head, next_head);
        proof {
            let n = self.storage();
            let before = old(self).head_value();
            assert forall|i: int|
                0 <= i < ring_length(self.head_value(), self.tail_value(), n) implies (
            #[trigger] self.elements@[ring_index(self.head_value(), i, n)]) is Some by {
                assert(ring_index(self.head_value(), i, n) == ring_index(before, i + 1, n));
                assert(self.elements@[ring_index(before, i + 1, n)] is Some);
            }
            assert forall|i: int| 0 <= i < old(self)@.len() - 1 implies self@[i] == old(self)@[i
                + 1] by {
                assert(ring_index(self.head_value(), i, n) == ring_index(before, i + 1, n));
            }
            assert(self@ =~= old(self)@.skip(1));
        }
    }
}

/// What one producer step guarantees: an enqueue succeeds exactly when the
/// queue is not yet at capacity, appends the element when it does, and
/// leaves the queue unchanged when it does not.
pub open spec fn enqueue_post<T>(
    pre: SPSCQueue<T>,
    post: SPSCQueue<T>,
    element: T,
    success: bool,
) -> bool {
    &&& post.spec_capacity() == pre.spec_capacity()
    &&& (success <==> pre@.len() < pre.spec_capacity())
    &&& (success ==> post@ == pre@.push(element))
    &&& (!success ==> post@ == pre@)
}

/// What one consumer step guarantees: a pop drops the front element.
pub open spec fn pop_post<T>(pre: SPSCQueue<T>, post: SPSCQueue<T>) -> bool {
    &&& post.spec_capacity() == pre.spec_capacity()
    &&& post@ == pre@.skip(1)
}

/// How full the queue is after its first `i` enqueues: from a fresh queue of
/// capacity `N`, with no pops, the fill level after `i` enqueues is
/// `min(i, N)`.
proof fn lemma_spsc_fill_level<T>(
    states: Seq<SPSCQueue<T>>,
    elements: Seq<T>,
    outcomes: Seq<bool>,
    i: int,
)
    requires
        states.len() == outcomes.len() + 1,
        elements.len() == outcomes.len(),
        states[0].spec_capacity() >= 0,
        states[0]@ == Seq::<T>::empty(),
        forall|j: int| #![trigger outcomes[j]]
            0 <= j < outcomes.len() ==> enqueue_post(
                states[j],
                states[j + 1],
                elements[j],
                outcomes[j],
            ),
        0 <= i < states.len(),
    ensures
        states[i].spec_capacity() == states[0].spec_capacity(),
        states[i]@.len() == if i <= states[0].spec_capacity() {
            i
        } else {
            states[0].spec_capacity()
        },
    decreases i,
{
    if i > 0 {
        lemma_spsc_fill_level(states, elements, outcomes, i - 1);
        assert(enqueue_post(states[i - 1], states[i], elements[i - 1], outcomes[i - 1]));
    }
}

/// Exactly `N` successful enqueues can occur on a fresh queue of capacity
/// `N` before `try_enqueue` returns `false`: with no pops, the `i`-th
/// enqueue succeeds precisely when `i < N`.
pub proof fn lemma_spsc_exact_capacity<T>(
    states: Seq<SPSCQueue<T>>,
    elements: Seq<T>,
    outcomes: Seq<bool>,
    i: int,
)
    requires
        states.len() == outcomes.len() + 1,
        elements.len() == outcomes.len(),
        states[0].spec_capacity() >= 0,
        states[0]@ == Seq::<T>::empty(),
        forall|j: int| #![trigger outcomes[j]]
            0 <= j < outcomes.len() ==> enqueue_post(
                states[j],
                states[j + 1],
                elements[j],
                outcomes[j],
            ),
        0 <= i < outcomes.len(),
    ensures
        outcomes[i] <==> i < states[0].spec_capacity(),
{
    lemma_spsc_fill_level(states, elements, outcomes, i);
    assert(enqueue_post(states[i], states[i + 1], elements[i], outcomes[i]));
}

/// After one pop from a full queue, exactly one more enqueue succeeds: it
/// brings the queue back to capacity, so the next one fails again.
pub proof fn lemma_spsc_pop_frees_one_slot<T>(
    full: SPSCQueue<T>,
    popped: SPSCQueue<T>,
    refilled: SPSCQueue<T>,
    element: T,
    success: bool,
)
    requires
        full@.len() == full.spec_capacity(),
        full.spec_capacity() > 0,
        pop_post(full, popped),
        enqueue_post(popped, refilled, element, success),
    ensures
        success,
        refilled@.len() == refilled.spec_capacity(),
{
}

} // verus!
