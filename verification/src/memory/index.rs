//! The key index: a mapping from owned key bytes to the location of the most
//! recently appended record for that key. At most one marker is held per
//! key; a second insert for the same key overwrites the first
//! (last-write-wins).

use vstd::prelude::*;

use crate::wire::bytes_equal;

verus! {

/// Where a record lies: which segment, at which offset, and how many bytes.
#[derive(Clone, Copy, Debug)]
pub struct IndexMarker {
    pub segment_index: usize,
    pub segment_position: usize,
    pub key_value_size: usize,
}

impl IndexMarker {
    pub fn new(segment_index: usize, segment_position: usize, key_value_size: usize) -> (marker:
        Self)
        ensures
            marker.segment_index == segment_index,
            marker.segment_position == segment_position,
            marker.key_value_size == key_value_size,
    {
        IndexMarker { segment_index, segment_position, key_value_size }
    }
}

/// The mapping an entry sequence denotes, later entries overriding earlier
/// ones for the same key.
spec fn entries_map(s: Seq<(Vec<u8>, IndexMarker)>) -> Map<Seq<u8>, IndexMarker>
    decreases s.len(),
{
    if s.len() == 0 {
        Map::empty()
    } else {
        entries_map(s.drop_last()).insert(s.last().0@, s.last().1)
    }
}

/// A key is in the denoted mapping exactly when some entry holds it.
proof fn lemma_entries_map_domain(s: Seq<(Vec<u8>, IndexMarker)>, k: Seq<u8>)
    ensures
        entries_map(s).contains_key(k) <==> (exists|i: int|
            0 <= i < s.len() && #[trigger] s[i].0@ == k),
    decreases s.len(),
{
    if s.len() > 0 {
        lemma_entries_map_domain(s.drop_last(), k);
        if entries_map(s).contains_key(k) && s.last().0@ != k {
            let i = choose|i: int| 0 <= i < s.drop_last().len() && #[trigger] s.drop_last()[i].0@
                == k;
            assert(s[i].0@ == k);
        }
        if exists|i: int| 0 <= i < s.len() && #[trigger] s[i].0@ == k {
            let i = choose|i: int| 0 <= i < s.len() && #[trigger] s[i].0@ == k;
            if i < s.len() - 1 {
                assert(s.drop_last()[i].0@ == k);
            }
        }
    }
}

/// Under distinct keys, the entry at `i` is exactly what the denoted mapping
/// holds for its key.
proof fn lemma_entries_map_index(s: Seq<(Vec<u8>, IndexMarker)>, i: int)
    requires
        forall|p: int, q: int| 0 <= p < q < s.len() ==> s[p].0@ != s[q].0@,
        0 <= i < s.len(),
    ensures
        entries_map(s).contains_key(s[i].0@),
        entries_map(s)[s[i].0@] == s[i].1,
    decreases s.len(),
{
    if i < s.len() - 1 {
        assert(forall|p: int, q: int|
            0 <= p < q < s.drop_last().len() ==> s.drop_last()[p].0@ != s.drop_last()[q].0@);
        lemma_entries_map_index(s.drop_last(), i);
        assert(s.drop_last()[i] == s[i]);
        assert(s[i].0@ != s.last().0@);
    }
}

/// Under distinct keys, overwriting the marker of the entry at `i` denotes
/// inserting the new marker for that entry's key.
proof fn lemma_entries_map_update(s: Seq<(Vec<u8>, IndexMarker)>, i: int, e: (Vec<u8>, IndexMarker))
    requires
        forall|p: int, q: int| 0 <= p < q < s.len() ==> s[p].0@ != s[q].0@,
        0 <= i < s.len(),
        e.0@ == s[i].0@,
    ensures
        entries_map(s.update(i, e)) == entries_map(s).insert(s[i].0@, e.1),
    decreases s.len(),
{
    let s2 = s.update(i, e);
    if i == s.len() - 1 {
        assert(s2.drop_last() =~= s.drop_last());
        assert(entries_map(s2) == entries_map(s.drop_last()).insert(e.0@, e.1));
        assert(entries_map(s).insert(s[i].0@, e.1) =~= entries_map(s.drop_last()).insert(
            e.0@,
            e.1,
        ));
    } else {
        assert(forall|p: int, q: int|
            0 <= p < q < s.drop_last().len() ==> s.drop_last()[p].0@ != s.drop_last()[q].0@);
        assert(s2.drop_last() =~= s.drop_last().update(i, e));
        assert(s.drop_last()[i] == s[i]);
        lemma_entries_map_update(s.drop_last(), i, e);
        assert(s2.last() == s.last());
        assert(entries_map(s2) == entries_map(s.drop_last()).insert(s[i].0@, e.1).insert(
            s.last().0@,
            s.last().1,
        ));
        assert(s[i].0@ != s.last().0@);
        assert(entries_map(s.drop_last()).insert(s[i].0@, e.1).insert(s.last().0@, s.last().1)
            =~= entries_map(s.drop_last()).insert(s.last().0@, s.last().1).insert(s[i].0@, e.1));
    }
}

/// The key index. Keys are owned copies of the appended keys; each key is
/// held by at most one entry.
pub struct Index {
    entries: Vec<(Vec<u8>, IndexMarker)>,
}

impl View for Index {
    type V = Map<Seq<u8>, IndexMarker>;

    closed spec fn view(&self) -> Map<Seq<u8>, IndexMarker> {
        entries_map(self.entries@)
    }
}

impl Index {
    /// Well-formedness: at most one entry per key. Constructors establish it
    /// and every operation preserves it.
    pub closed spec fn wf(self) -> bool {
        forall|p: int, q: int|
            0 <= p < q < self.entries@.len() ==> self.entries@[p].0@ != self.entries@[q].0@
    }

    /// An empty index.
    pub fn new() -> (index: Self)
        ensures
            index.wf(),
            index@ == Map::<Seq<u8>, IndexMarker>::empty(),
    {
        Index { entries: Vec::new() }
    }

    /// The position of the entry holding `key`, if any.
    fn position_of(&self, key: &[u8]) -> (position: Option<usize>)
        ensures
            match position {
                Some(i) => i < self.entries@.len() && self.entries@[i as int].0@ == key@,
                None => forall|j: int| 0 <= j < self.entries@.len() ==> self.entries@[j].0@ != key@,
            },
    {
        let mut i: usize = 0;
        let n = self.entries.len();
        while i < n
            invariant
                0 <= i <= n == self.entries@.len(),
                forall|j: int| 0 <= j < i ==> self.entries@[j].0@ != key@,
            decreases n - i,
        {
            let entry = vstd::std_specs::vec::vec_index(&self.entries, i);
            if bytes_equal(entry.0.as_slice(), key) {
                return Some(i);
            }
            i = i + 1;
        }
        None
    }

    /// Unconditional upsert: any marker previously held for this key is
    /// overwritten.
    pub fn insert(&mut self, key: Vec<u8>, value: IndexMarker)
        requires
            old(self).wf(),
        ensures
            final(self).wf(),
            final(self)@ == old(self)@.insert(key@, value),
    {
        match self.position_of(key.as_slice()) {
            Some(i) => {
                proof {
                    lemma_entries_map_update(
                        self.entries@,
                        i as int,
                        (self.entries@[i as int].0, value),
                    );
                }
                let entry = vstd::std_specs::vec::vec_index_mut(&mut self.entries, i);
                entry.1 = value;
            },
            None => {
                let ghost before = self.entries@;
                self.entries.push((key, value));
                proof {
                    assert(self.entries@.drop_last() =~= before);
                }
            },
        }
    }

    /// A pure lookup: the marker for `key`, or nothing if the key was never
    /// inserted.
    pub fn get(&self, key: &[u8]) -> (marker: Option<&IndexMarker>)
        requires
            self.wf(),
        ensures
            match marker {
                Some(m) => self@.contains_key(key@) && *m == self@[key@],
                None => !self@.contains_key(key@),
            },
    {
        proof {
            lemma_entries_map_domain(self.entries@, key@);
        }
        match self.position_of(key) {
            Some(i) => {
                proof {
                    lemma_entries_map_index(self.entries@, i as int);
                }
                Some(&vstd::std_specs::vec::vec_index(&self.entries, i).1)
            },
            None => None,
        }
    }
}

} // verus!
