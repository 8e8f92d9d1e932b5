//! Queue entries and the in-memory first-in-first-out queue storage.

use std::collections::VecDeque;
use vstd::prelude::*;
use crate::container::{CollectionView, TrackCollection};

verus! {

/// A fresh random version-4 UUID as a 128-bit number (`uuid::Uuid::new_v4`
/// followed by `Uuid::as_u128`). Nothing is claimed of the value: it comes
/// from the operating system's random number generator.
#[verifier::external_body]
pub(crate) fn random_uuid() -> (id: u128) {
    uuid::Uuid::new_v4().as_u128()
}

/// `id` occurs in `taken`.
fn is_taken(taken: &Vec<u128>, id: u128) -> (b: bool)
    ensures
        b == taken@.contains(id),
{
    let mut i: usize = 0;
    while i < taken.len()
        invariant
            i <= taken.len(),
            forall|k: int| 0 <= k < i ==> taken@[k] != id,
        decreases taken.len() - i,
    {
        if taken[i] == id {
            return true;
        }
        i = i + 1;
    }
    false
}

/// When every value below `c` is taken, there are at least `c` taken ids.
proof fn lemma_taken_below(taken: Seq<u128>, c: u128)
    requires
        forall|v: u128| v < c ==> taken.contains(v),
    ensures
        c <= taken.len(),
{
    broadcast use vstd::seq_lib::seq_to_set_is_finite;
    let s = taken.map_values(|v: u128| v as int);
    let below = vstd::set_lib::set_int_range(0, c as int);
    vstd::set_lib::lemma_int_range(0, c as int);
    assert forall|i: int| below.contains(i) implies s.to_set().contains(i) by {
        let v = i as u128;
        assert(taken.contains(v));
        let k = choose|k: int| 0 <= k < taken.len() && taken[k] == v;
        assert(s[k] == i);
    }
    vstd::set_lib::lemma_len_subset(below, s.to_set());
    s.lemma_cardinality_of_set();
}

/// The id for a new task: the `drawn` one unless it repeats one of `taken`,
/// else the smallest value that none of `taken` has.
pub fn fresh_id(taken: &Vec<u128>, drawn: u128) -> (id: u128)
    ensures
        !taken@.contains(id),
        !taken@.contains(drawn) ==> id == drawn,
        taken@.contains(drawn) ==> forall|v: u128| v < id ==> taken@.contains(v),
{
    if !is_taken(taken, drawn) {
        return drawn;
    }
    let mut c: u128 = 0;
    while is_taken(taken, c)
        invariant
            forall|v: u128| v < c ==> taken@.contains(v),
            c <= taken@.len(),
        decreases taken@.len() - c,
    {
        assert(c < u128::MAX) by {
            assert(taken@.len() == taken.len());
        }
        proof {
            assert forall|v: u128| v < c + 1 implies taken@.contains(v) by {
                if v == c {
                    assert(taken@.contains(c));
                }
            }
            lemma_taken_below(taken@, (c + 1) as u128);
        }
        c = c + 1;
    }
    c
}

/// One entry per track URI, carrying the collection it belongs to.
#[derive(Debug)]
pub struct QueueEntry {
    pub task_id: u128,
    pub track_uri: String,
    pub collection: TrackCollection,
}

/// The abstract value of a [`QueueEntry`].
pub struct QueueEntryView {
    pub task_id: u128,
    pub track_uri: String,
    pub collection: CollectionView,
}

impl View for QueueEntry {
    type V = QueueEntryView;

    open spec fn view(&self) -> QueueEntryView {
        QueueEntryView { task_id: self.task_id, track_uri: self.track_uri, collection: self.collection@ }
    }
}

impl QueueEntry {
    /// A new entry for `track_uri` with a freshly generated task id.
    pub fn new(track_uri: String, collection: TrackCollection) -> (e: QueueEntry)
        ensures
            e.track_uri == track_uri,
            e.collection == collection,
    {
        QueueEntry { task_id: random_uuid(), track_uri, collection }
    }
}

impl Clone for QueueEntry {
    fn clone(&self) -> (r: Self)
        ensures
            r@ == self@,
    {
        QueueEntry {
            task_id: self.task_id,
            track_uri: self.track_uri.clone(),
            collection: self.collection.clone(),
        }
    }
}

/// FIFO in-memory queue storage: entries come out in the order they went in.
pub struct InMemoryStorage {
    entries: VecDeque<QueueEntry>,
}

impl View for InMemoryStorage {
    type V = Seq<QueueEntry>;

    closed spec fn view(&self) -> Seq<QueueEntry> {
        self.entries@
    }
}

impl InMemoryStorage {
    /// An empty queue.
    pub fn new() -> (s: Self)
        ensures
            s@ == Seq::<QueueEntry>::empty(),
    {
        InMemoryStorage { entries: VecDeque::new() }
    }

    /// Adds an entry at the back.
    pub fn push(&mut self, entry: QueueEntry)
        ensures
            final(self)@ == old(self)@.push(entry),
    {
        self.entries.push_back(entry);
    }

    /// Removes and returns the entry at the front, if any.
    pub fn pop(&mut self) -> (r: Option<QueueEntry>)
        ensures
            old(self)@.len() == 0 ==> r is None && final(self)@ == old(self)@,
            old(self)@.len() > 0 ==> r == Some(old(self)@[0])
                && final(self)@ == old(self)@.drop_first(),
    {
        self.entries.pop_front()
    }

    /// Number of entries waiting.
    pub fn len(&self) -> (n: usize)
        ensures
            n == self@.len(),
    {
        self.entries.len()
    }

    /// No entries are waiting.
    pub fn is_empty(&self) -> (b: bool)
        ensures
            b == (self@.len() == 0),
    {
        self.entries.len() == 0
    }
}

impl Default for InMemoryStorage {
    fn default() -> (s: Self)
        ensures
            s@ == Seq::<QueueEntry>::empty(),
    {
        InMemoryStorage::new()
    }
}

} // verus!
