//! The writable view of one snapshot that a run works on: it answers reads
//! from the snapshot and from the writes made so far, and keeps those writes
//! to itself.

use crate::key::{Key, Value};
use crate::state::{effect_applies, lookup, value_after, Effect, Snapshot};
use crate::transform::Transform;
use vstd::prelude::*;

verus! {

/// A snapshot together with the changes pending on it.
#[derive(Debug)]
pub struct TrackingCopy {
    base: Snapshot,
    pending: Effect,
}

/// A tracking copy as two maps.
pub struct TrackingCopyView {
    /// The snapshot that was checked out.
    pub base: Map<Key, Value>,
    /// The changes made since.
    pub pending: Map<Key, Transform>,
}

impl TrackingCopyView {
    /// The view of `base` that nothing has been written to yet.
    pub open spec fn fresh(base: Map<Key, Value>) -> TrackingCopyView {
        TrackingCopyView { base, pending: Map::empty() }
    }

    /// What a read of `key` gives: the last value written to it, or what the
    /// snapshot holds where nothing was written.
    pub open spec fn current(self, key: Key) -> Option<Value> {
        if self.pending.contains_key(key) {
            match self.pending[key] {
                Transform::Write(value) => Some(value),
                _ => lookup(self.base, key),
            }
        } else {
            lookup(self.base, key)
        }
    }
}

impl View for TrackingCopy {
    type V = TrackingCopyView;

    closed spec fn view(&self) -> TrackingCopyView {
        TrackingCopyView { base: self.base@, pending: self.pending@ }
    }
}

impl TrackingCopy {
    #[verifier::type_invariant]
    spec fn only_writes(&self) -> bool {
        forall|key: Key| #[trigger]
            self.pending@.contains_key(key) ==> self.pending@[key] is Write
    }

    /// A view of `base` with nothing written yet.
    pub fn new(base: Snapshot) -> (copy: TrackingCopy)
        ensures
            copy@ == TrackingCopyView::fresh(base@),
    {
        TrackingCopy { base, pending: Effect::new() }
    }

    /// Reads `key` through the pending writes.
    pub fn read(&self, key: &Key) -> (value: Option<Value>)
        ensures
            value == self@.current(*key),
    {
        match self.pending.get(key) {
            Some(Transform::Write(value)) => Some(value),
            _ => self.base.get(key),
        }
    }

    /// Writes `value` under `key`. The snapshot stays as it is; the write is
    /// pending.
    pub fn write(&mut self, key: Key, value: Value)
        ensures
            final(self)@.base == old(self)@.base,
            final(self)@.pending == old(self)@.pending.insert(key, Transform::Write(value)),
    {
        proof {
            use_type_invariant(&*self);
        }
        let mut pending = Effect::new();
        core::mem::swap(&mut self.pending, &mut pending);
        pending.insert(key, Transform::Write(value));
        self.pending = pending;
    }

    /// The changes made so far, as an effect that can be committed. Each is a
    /// write, so the effect applies to the snapshot.
    pub fn effect(&self) -> (effect: Effect)
        ensures
            effect@ == self@.pending,
            effect_applies(self@.base, effect@),
            forall|key: Key|
                lookup(crate::state::state_after(self@.base, effect@), key) == self@.current(key),
    {
        proof {
            use_type_invariant(self);
            assert forall|key: Key| #[trigger]
                value_after(self.base@, self.pending@, key) is Ok by {
                if self.pending@.contains_key(key) {
                    assert(self.pending@[key] is Write);
                }
            }
            assert forall|key: Key|
                lookup(crate::state::state_after(self.base@, self.pending@), key)
                    == self@.current(key) by {
                if self.pending@.contains_key(key) {
                    assert(self.pending@[key] is Write);
                }
            }
        }
        self.pending.clone()
    }
}

} // verus!
