//! The executor as the engine sees it: what it is handed, what it returns,
//! and the ways in which a run can fail.

use crate::key::Key;
use crate::preprocessor::Module;
use crate::state::Effect;
use crate::tracking_copy::{TrackingCopy, TrackingCopyView};
use crate::transform::{StorageError, Transform};
use vstd::prelude::*;

verus! {

/// Why a run of a module ended without an effect.
#[derive(Clone, Copy, Debug, PartialEq, Eq)]
pub enum ExecutionError {
    /// The interpreter trapped.
    Interpreter,
    /// Reading or writing global state failed.
    Storage(StorageError),
    /// The module read a key that holds nothing.
    KeyNotFound(Key),
    /// The module used a reference it was never given.
    ForgedReference(Key),
    /// The module used up its gas.
    GasLimit,
}

/// What a run yields, with its effect taken by its view.
pub open spec fn executed_view(outcome: (Result<Effect, ExecutionError>, u64)) -> (
    Result<Map<Key, Transform>, ExecutionError>,
    u64,
) {
    match outcome.0 {
        Ok(effect) => (Ok(effect@), outcome.1),
        Err(error) => (Err(error), outcome.1),
    }
}

/// Runs a preprocessed module against a writable view of global state.
///
/// An executor is a function of what it is handed: `executed` names the
/// effect or error and the gas used, and `exec` computes them. `executed` has
/// a placeholder body so that an executor built without the verifier need not
/// supply it; a verified one overrides it.
pub trait Executor {
    /// What this executor makes of `module`, run for `address` under
    /// `gas_limit` on the view `state`.
    open spec fn executed(
        &self,
        module: Seq<u8>,
        address: [u8; 20],
        timestamp: u64,
        nonce: u64,
        gas_limit: u64,
        state: TrackingCopyView,
    ) -> (Result<Map<Key, Transform>, ExecutionError>, u64) {
        arbitrary()
    }

    /// Runs `module`. Returns its effect, or the error that stopped it, and
    /// in both cases the gas used, which never exceeds `gas_limit`. What the
    /// run writes goes to `tc` and nowhere else.
    fn exec(
        &self,
        module: Module,
        address: [u8; 20],
        timestamp: u64,
        nonce: u64,
        gas_limit: u64,
        tc: &mut TrackingCopy,
    ) -> (outcome: (Result<Effect, ExecutionError>, u64))
        ensures
            executed_view(outcome) == self.executed(
                module@,
                address,
                timestamp,
                nonce,
                gas_limit,
                old(tc)@,
            ),
            outcome.1 <= gas_limit,
    ;
}

} // verus!
