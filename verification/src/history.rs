//! The versioned state store as the engine sees it: snapshots found by their
//! root hash, one of them checked out for a run, an effect committed on top
//! of one of them.

use crate::key::{Key, Value};
use crate::state::{effect_applies, state_after, Effect};
use crate::tracking_copy::{TrackingCopy, TrackingCopyView};
use crate::transform::{StorageError, Transform};
use vstd::prelude::*;

verus! {

/// The store holds no snapshot under this root hash, or none that can still
/// be built on.
#[derive(Clone, Copy, Debug, PartialEq, Eq)]
pub struct RootNotFound(pub [u8; 32]);

/// How a commit on a known root ended.
#[derive(Clone, Copy, Debug, PartialEq, Eq)]
pub enum CommitResult {
    /// The effect was applied; the new snapshot has this root hash.
    Success([u8; 32]),
    /// The store turned the effect down and holds what it held.
    Failure(StorageError),
}

/// What a checkout yields, with the tracking copy taken by its view.
pub open spec fn checkout_view(outcome: Result<TrackingCopy, RootNotFound>) -> Result<
    TrackingCopyView,
    RootNotFound,
> {
    match outcome {
        Ok(copy) => Ok(copy@),
        Err(missing) => Err(missing),
    }
}

/// What a checkout at `root` must yield from a store that holds `snapshots`:
/// a fresh view of the snapshot under `root`, or the root reported missing.
pub open spec fn checked_out(snapshots: Map<[u8; 32], Map<Key, Value>>, root: [u8; 32]) -> Result<
    TrackingCopyView,
    RootNotFound,
> {
    if snapshots.contains_key(root) {
        Ok(TrackingCopyView::fresh(snapshots[root]))
    } else {
        Err(RootNotFound(root))
    }
}

/// Whether a commit of `effect` on `root` may end in `outcome`, taking a
/// store from `snapshots` and `frontier` to `snapshots_after` and
/// `frontier_after`.
///
/// A root outside the frontier is reported missing. On a root of the frontier
/// the commit succeeds or is turned down; it succeeds only where every change
/// applies. Success adds one snapshot, the state after the effect, changes no
/// snapshot that was there, and moves the frontier from `root` to the new
/// root. Every other outcome leaves the store as it was.
pub open spec fn commit_allowed(
    snapshots: Map<[u8; 32], Map<Key, Value>>,
    frontier: Set<[u8; 32]>,
    snapshots_after: Map<[u8; 32], Map<Key, Value>>,
    frontier_after: Set<[u8; 32]>,
    root: [u8; 32],
    effect: Map<Key, Transform>,
    outcome: Result<CommitResult, RootNotFound>,
) -> bool {
    match outcome {
        Err(missing) => {
            &&& !frontier.contains(root)
            &&& missing == RootNotFound(root)
            &&& snapshots_after == snapshots
            &&& frontier_after == frontier
        },
        Ok(CommitResult::Failure(_)) => {
            &&& frontier.contains(root)
            &&& snapshots_after == snapshots
            &&& frontier_after == frontier
        },
        Ok(CommitResult::Success(new_root)) => {
            &&& frontier.contains(root)
            &&& snapshots.contains_key(root)
            &&& effect_applies(snapshots[root], effect)
            &&& snapshots.contains_key(new_root) ==> snapshots[new_root] == state_after(
                snapshots[root],
                effect,
            )
            &&& snapshots_after == snapshots.insert(
                new_root,
                state_after(snapshots[root], effect),
            )
            &&& frontier_after == frontier.remove(root).insert(new_root)
        },
    }
}

/// A versioned store of snapshots of global state.
///
/// A store is described by two things: the snapshots it holds, each under its
/// root hash, and its frontier, the roots that a commit can still build on.
/// `snapshots` and `frontier` have placeholder bodies so that a store built
/// without the verifier need not supply them; a verified store overrides
/// them.
pub trait History {
    /// The snapshots that the store holds, by root hash.
    open spec fn snapshots(&self) -> Map<[u8; 32], Map<Key, Value>> {
        arbitrary()
    }

    /// The roots that no commit has built on yet.
    open spec fn frontier(&self) -> Set<[u8; 32]> {
        arbitrary()
    }

    /// Hands out a writable view of the snapshot under `prestate_hash`. The
    /// store itself is not changed, now or by what is written to the view.
    fn checkout(&self, prestate_hash: [u8; 32]) -> (outcome: Result<TrackingCopy, RootNotFound>)
        ensures
            checkout_view(outcome) == checked_out(self.snapshots(), prestate_hash),
    ;

    /// Applies `effects` on top of the snapshot under `prestate_hash`.
    fn commit(&mut self, prestate_hash: [u8; 32], effects: Effect) -> (outcome: Result<
        CommitResult,
        RootNotFound,
    >)
        ensures
            commit_allowed(
                old(self).snapshots(),
                old(self).frontier(),
                final(self).snapshots(),
                final(self).frontier(),
                prestate_hash,
                effects@,
                outcome,
            ),
    ;
}

} // verus!
