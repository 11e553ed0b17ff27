//! A state store that keeps every snapshot in memory.

use crate::history::{CommitResult, History, RootNotFound};
use crate::key::{same_bytes, Key, Value};
use crate::state::{apply_effect_to, effect_applies, value_after, Effect, Snapshot};
use crate::tracking_copy::TrackingCopy;
use crate::transform::StorageError;
use vstd::prelude::*;

verus! {

/// The bytes of the root hash that stands for `counter`: the counter, least
/// byte first, then zeros.
pub open spec fn counter_bytes(counter: u64) -> Seq<u8> {
    Seq::new(
        32,
        |i: int|
            if 0 <= i < 8 {
                ((counter >> ((8 * i) as u64)) & 0xff) as u8
            } else {
                0u8
            },
    )
}

/// The root hash that stands for `counter`.
pub fn counter_root(counter: u64) -> (root: [u8; 32])
    ensures
        root@ == counter_bytes(counter),
{
    let mut root = [0u8; 32];
    let mut i: usize = 0;
    while i < 8
        invariant
            i <= 8,
            forall|j: int| 0 <= j < i ==> root@[j] == counter_bytes(counter)[j],
            forall|j: int| i <= j < 32 ==> root@[j] == 0u8,
        decreases 8 - i,
    {
        let shift: u64 = 8 * (i as u64);
        root[i] = ((counter >> shift) & 0xff) as u8;
        i += 1;
    }
    assert(root@ =~= counter_bytes(counter));
    root
}

/// One snapshot of the store.
#[derive(Debug)]
struct Entry {
    /// The root hash that the snapshot is found by.
    root: [u8; 32],
    /// The state itself.
    state: Snapshot,
    /// Whether a commit can still build on this snapshot.
    head: bool,
}

/// Some entry is filed under `root`.
spec fn known(entries: Seq<Entry>, root: [u8; 32]) -> bool {
    exists|i: int| 0 <= i < entries.len() && entries[i].root == root
}

/// Some entry is filed under a root with the bytes `bytes`.
spec fn named(entries: Seq<Entry>, bytes: Seq<u8>) -> bool {
    exists|i: int| 0 <= i < entries.len() && entries[i].root@ == bytes
}

/// The place of the entry filed under `root`.
spec fn place_of(entries: Seq<Entry>, root: [u8; 32]) -> int {
    choose|i: int| 0 <= i < entries.len() && entries[i].root == root
}

/// No two entries are filed under one root.
spec fn distinct_roots(entries: Seq<Entry>) -> bool {
    forall|i: int, j: int| 0 <= i < j < entries.len() ==> entries[i].root != entries[j].root
}

/// The snapshots that a list of entries holds, by root.
spec fn snapshots_of(entries: Seq<Entry>) -> Map<[u8; 32], Map<Key, Value>> {
    Map::new(
        |root: [u8; 32]| known(entries, root),
        |root: [u8; 32]| entries[place_of(entries, root)].state@,
    )
}

/// The roots of a list of entries that can still be built on.
spec fn frontier_of(entries: Seq<Entry>) -> Set<[u8; 32]> {
    Set::new(|root: [u8; 32]| known(entries, root) && entries[place_of(entries, root)].head)
}

/// With no root twice, the entry at place `i` is the one its root is found
/// by.
proof fn lemma_place(entries: Seq<Entry>, i: int)
    requires
        distinct_roots(entries),
        0 <= i < entries.len(),
    ensures
        known(entries, entries[i].root),
        place_of(entries, entries[i].root) == i,
{
    let j = place_of(entries, entries[i].root);
    if j < i {
        assert(entries[j].root != entries[i].root);
    }
    if i < j {
        assert(entries[i].root != entries[j].root);
    }
}

/// What a commit at place `i` does to the entries: the entry there is no
/// longer a head, and `added`, filed under a root that was not known, is the
/// new head.
proof fn lemma_committed(entries: Seq<Entry>, i: int, added: Entry, after: Seq<Entry>)
    requires
        distinct_roots(entries),
        0 <= i < entries.len(),
        entries[i].head,
        !known(entries, added.root),
        added.head,
        after.len() == entries.len() + 1,
        after[entries.len() as int] == added,
        forall|j: int|
            0 <= j < entries.len() ==> (#[trigger] after[j]).root == entries[j].root && after[j].state
                == entries[j].state && after[j].head == (entries[j].head && j != i),
    ensures
        distinct_roots(after),
        snapshots_of(after) == snapshots_of(entries).insert(added.root, added.state@),
        frontier_of(after) == frontier_of(entries).remove(entries[i].root).insert(added.root),
{
    let last = entries.len() as int;
    assert(distinct_roots(after)) by {
        assert forall|a: int, b: int| 0 <= a < b < after.len() implies after[a].root
            != after[b].root by {
            if b < last {
                assert(entries[a].root != entries[b].root);
            } else {
                assert(after[a].root == entries[a].root);
            }
        }
    }
    assert forall|root: [u8; 32]| known(after, root) <==> (known(entries, root) || root
        == added.root) by {
        if known(after, root) {
            let j = place_of(after, root);
            if j < last {
                assert(entries[j].root == root);
            }
        }
        if known(entries, root) {
            let j = place_of(entries, root);
            assert(after[j].root == root);
        }
        if root == added.root {
            assert(after[last].root == root);
        }
    }
    assert forall|root: [u8; 32]| known(entries, root) implies place_of(after, root)
        == place_of(entries, root) by {
        let j = place_of(entries, root);
        assert(after[j].root == root);
        lemma_place(after, j);
    }
    lemma_place(after, last);
    lemma_place(entries, i);
    assert(snapshots_of(after) =~= snapshots_of(entries).insert(added.root, added.state@));
    assert(frontier_of(after) =~= frontier_of(entries).remove(entries[i].root).insert(
        added.root,
    ));
}

/// A store of snapshots held in memory. Each commit files its snapshot under
/// the root hash of the next counter value that names no snapshot yet.
#[derive(Debug)]
pub struct InMemHist {
    entries: Vec<Entry>,
    next: u64,
}

impl InMemHist {
    #[verifier::type_invariant]
    spec fn well_formed(&self) -> bool {
        distinct_roots(self.entries@)
    }

    /// No counter value is left whose root hash names no snapshot: the store
    /// can take no further commit.
    pub closed spec fn exhausted(&self) -> bool {
        forall|counter: u64|
            self.next <= counter < u64::MAX ==> #[trigger] named(
                self.entries@,
                counter_bytes(counter),
            )
    }

    /// A store that holds `state` under `root` and nothing else.
    pub fn new_initialized(root: &[u8; 32], state: Snapshot) -> (store: InMemHist)
        ensures
            store.snapshots() == Map::<[u8; 32], Map<Key, Value>>::empty().insert(*root, state@),
            store.frontier() == Set::<[u8; 32]>::empty().insert(*root),
            !store.exhausted(),
    {
        let mut entries: Vec<Entry> = Vec::new();
        entries.push(Entry { root: *root, state, head: true });
        let store = InMemHist { entries, next: 0 };
        proof {
            lemma_place(store.entries@, 0);
            assert(store.snapshots() =~= Map::<[u8; 32], Map<Key, Value>>::empty().insert(
                *root,
                state@,
            ));
            assert(store.frontier() =~= Set::<[u8; 32]>::empty().insert(*root));
            assert(counter_bytes(0)[0] == 0u8) by {
                assert((0u64 >> 0u64) & 0xff == 0u64) by (bit_vector);
            }
            assert(counter_bytes(1)[0] == 1u8) by {
                assert((1u64 >> 0u64) & 0xff == 1u64) by (bit_vector);
            }
            if root@ == counter_bytes(0) {
                assert(!named(store.entries@, counter_bytes(1)));
            } else {
                assert(!named(store.entries@, counter_bytes(0)));
            }
        }
        store
    }

    /// Where the snapshot under `root` is filed, if the store holds one.
    fn find(&self, root: &[u8; 32]) -> (found: Option<usize>)
        ensures
            match found {
                Some(i) => i < self.entries@.len() && self.entries@[i as int].root == *root
                    && place_of(self.entries@, *root) == i,
                None => !known(self.entries@, *root),
            },
    {
        let mut i: usize = 0;
        while i < self.entries.len()
            invariant
                i <= self.entries@.len(),
                forall|j: int| 0 <= j < i ==> self.entries@[j].root != *root,
            decreases self.entries@.len() - i,
        {
            if same_bytes(&self.entries[i].root, root) {
                proof {
                    use_type_invariant(self);
                    lemma_place(self.entries@, i as int);
                }
                return Some(i);
            }
            i += 1;
        }
        None
    }

    /// The root hash of the first counter value from `next` on that names no
    /// snapshot, with the counter value after it.
    fn fresh_root(&self) -> (found: Option<([u8; 32], u64)>)
        ensures
            match found {
                Some((root, next)) => !known(self.entries@, root) && !self.exhausted(),
                None => self.exhausted(),
            },
    {
        let mut counter: u64 = self.next;
        while counter < u64::MAX
            invariant
                self.next <= counter,
                forall|c: u64|
                    self.next <= c < counter ==> #[trigger] named(
                        self.entries@,
                        counter_bytes(c),
                    ),
            decreases u64::MAX - counter,
        {
            let candidate = counter_root(counter);
            match self.find(&candidate) {
                None => {
                    proof {
                        if named(self.entries@, counter_bytes(counter)) {
                            let i = choose|i: int|
                                0 <= i < self.entries@.len() && self.entries@[i].root@
                                    == counter_bytes(counter);
                            assert(self.entries@[i].root =~= candidate);
                        }
                    }
                    return Some((candidate, counter + 1));
                },
                Some(i) => {
                    assert(named(self.entries@, counter_bytes(counter))) by {
                        assert(self.entries@[i as int].root@ == counter_bytes(counter));
                    }
                },
            }
            counter += 1;
        }
        None
    }
}

impl History for InMemHist {
    closed spec fn snapshots(&self) -> Map<[u8; 32], Map<Key, Value>> {
        snapshots_of(self.entries@)
    }

    closed spec fn frontier(&self) -> Set<[u8; 32]> {
        frontier_of(self.entries@)
    }

    fn checkout(&self, prestate_hash: [u8; 32]) -> (outcome: Result<TrackingCopy, RootNotFound>) {
        match self.find(&prestate_hash) {
            Some(i) => Ok(TrackingCopy::new(self.entries[i].state.clone())),
            None => Err(RootNotFound(prestate_hash)),
        }
    }

    /// Commits as every store does. An effect that does not apply is turned
    /// down with the error of its first listed change that fails; one that
    /// applies is turned down only by a store that is exhausted.
    fn commit(&mut self, prestate_hash: [u8; 32], effects: Effect) -> (outcome: Result<
        CommitResult,
        RootNotFound,
    >)
        ensures
            outcome matches Ok(CommitResult::Failure(error)) ==> {
                let state = old(self).snapshots()[prestate_hash];
                if effect_applies(state, effects@) {
                    error == StorageError::RootsExhausted && old(self).exhausted()
                } else {
                    exists|i: int|
                        0 <= i < effects.listed().len() && value_after(
                            state,
                            effects@,
                            #[trigger] effects.listed()[i].0,
                        ) == Err::<Option<Value>, StorageError>(error) && forall|j: int|
                            0 <= j < i ==> value_after(
                                state,
                                effects@,
                                #[trigger] effects.listed()[j].0,
                            ) is Ok
                }
            },
            outcome matches Ok(CommitResult::Success(_)) ==> !old(self).exhausted(),
    {
        proof {
            use_type_invariant(&*self);
        }
        let i = match self.find(&prestate_hash) {
            None => {
                return Err(RootNotFound(prestate_hash));
            },
            Some(i) => i,
        };
        if !self.entries[i].head {
            return Err(RootNotFound(prestate_hash));
        }
        let state = match apply_effect_to(&self.entries[i].state, &effects) {
            Err(error) => {
                return Ok(CommitResult::Failure(error));
            },
            Ok(state) => state,
        };
        let (root, next) = match self.fresh_root() {
            None => {
                return Ok(CommitResult::Failure(StorageError::RootsExhausted));
            },
            Some(found) => found,
        };
        let ghost before = self.entries@;
        let ghost added = Entry { root, state, head: true };
        let mut entries: Vec<Entry> = Vec::new();
        core::mem::swap(&mut self.entries, &mut entries);
        entries[i].head = false;
        entries.push(Entry { root, state, head: true });
        proof {
            lemma_committed(before, i as int, added, entries@);
        }
        self.entries = entries;
        self.next = next;
        Ok(CommitResult::Success(root))
    }
}

} // verus!
