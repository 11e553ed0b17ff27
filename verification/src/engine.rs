//! The engine: one state store behind a lock, a cost schedule, and the two
//! operations that the node calls.

use crate::executor::{executed_view, ExecutionError, Executor};
use crate::guard::{guarded, held, held_mut, lock};
use crate::history::{checked_out, commit_allowed, CommitResult, History, RootNotFound};
use crate::key::{Key, Value};
use crate::preprocessor::{PreprocessingError, PreprocessingErrorView, Preprocessor, WasmCosts};
use crate::state::{lookup, state_after, value_after, Effect};
use crate::tracking_copy::TrackingCopyView;
use crate::transform::{StorageError, Transform};
use parking_lot::Mutex;
use vstd::prelude::*;
use vstd::std_specs::convert::FromSpecImpl;

verus! {

/// Everything that can go wrong with a deploy, whichever part of the engine
/// found it.
#[derive(Debug, PartialEq, Eq)]
pub enum Error {
    /// The preprocessor refused the bytecode; the text says why.
    PreprocessingError(String),
    /// The run failed.
    ExecError(ExecutionError),
    /// The state store failed.
    StorageError(StorageError),
}

/// An error with its text as a sequence of characters.
pub enum ErrorView {
    PreprocessingError(Seq<char>),
    ExecError(ExecutionError),
    StorageError(StorageError),
}

impl View for Error {
    type V = ErrorView;

    open spec fn view(&self) -> ErrorView {
        match self {
            Error::PreprocessingError(message) => ErrorView::PreprocessingError(message@),
            Error::ExecError(error) => ErrorView::ExecError(*error),
            Error::StorageError(error) => ErrorView::StorageError(*error),
        }
    }
}

impl ErrorView {
    /// The engine's error for a preprocessing error: its message, whichever
    /// variant it is.
    pub open spec fn of_preprocessing(error: PreprocessingErrorView) -> ErrorView {
        ErrorView::PreprocessingError(error.message())
    }
}

impl From<PreprocessingError> for Error {
    /// Reports a preprocessing error under its message. Every variant is
    /// named here, so that a new one cannot go by without a message.
    fn from(error: PreprocessingError) -> (converted: Error)
        ensures
            converted@ == ErrorView::of_preprocessing(error@),
    {
        match error {
            PreprocessingError::InvalidImportsError(detail) => Error::PreprocessingError(detail),
            PreprocessingError::NoExportSection => {
                Error::PreprocessingError("No export section found.".to_owned())
            },
            PreprocessingError::NoImportSection => {
                Error::PreprocessingError("No import section found,".to_owned())
            },
            PreprocessingError::DeserializeError(detail) => Error::PreprocessingError(detail),
            PreprocessingError::OperationForbiddenByGasRules => {
                Error::PreprocessingError(
                    "Encountered operation forbidden by gas rules. Consult instruction -> metering config map.".to_owned(),
                )
            },
            PreprocessingError::StackLimiterError => {
                Error::PreprocessingError("Wasm contract error: Stack limiter error.".to_owned())
            },
        }
    }
}

/// A text is known by its characters alone, so the conversion above is stated
/// over views; `from_spec` would have to name the `String` itself and is left
/// unused.
impl FromSpecImpl<PreprocessingError> for Error {
    open spec fn obeys_from_spec() -> bool {
        false
    }

    open spec fn from_spec(error: PreprocessingError) -> Error {
        arbitrary()
    }
}

impl From<StorageError> for Error {
    /// Wraps a storage error as it is.
    fn from(error: StorageError) -> (converted: Error) {
        Error::StorageError(error)
    }
}

impl FromSpecImpl<StorageError> for Error {
    open spec fn obeys_from_spec() -> bool {
        true
    }

    open spec fn from_spec(error: StorageError) -> Error {
        Error::StorageError(error)
    }
}

impl From<ExecutionError> for Error {
    /// Wraps an execution error as it is.
    fn from(error: ExecutionError) -> (converted: Error) {
        Error::ExecError(error)
    }
}

impl FromSpecImpl<ExecutionError> for Error {
    open spec fn obeys_from_spec() -> bool {
        true
    }

    open spec fn from_spec(error: ExecutionError) -> Error {
        Error::ExecError(error)
    }
}

/// How a deploy ended, and the gas it used.
#[derive(Debug)]
pub enum ExecutionResult {
    /// The run finished; these are the changes it asks for.
    Success(Effect, u64),
    /// The deploy was refused or the run failed.
    Failure(Error, u64),
}

/// An execution result with its effect as a map and its error by its view.
pub enum ExecutionResultView {
    Success(Map<Key, Transform>, u64),
    Failure(ErrorView, u64),
}

impl View for ExecutionResult {
    type V = ExecutionResultView;

    open spec fn view(&self) -> ExecutionResultView {
        match self {
            ExecutionResult::Success(effect, cost) => ExecutionResultView::Success(effect@, *cost),
            ExecutionResult::Failure(error, cost) => ExecutionResultView::Failure(error@, *cost),
        }
    }
}

impl ExecutionResultView {
    /// The gas used.
    pub open spec fn cost(self) -> u64 {
        match self {
            ExecutionResultView::Success(_, cost) => cost,
            ExecutionResultView::Failure(_, cost) => cost,
        }
    }

    /// The result of a deploy that preprocessing refused with `error`: a
    /// failure that used no gas, since nothing ran.
    pub open spec fn refused(error: PreprocessingErrorView) -> ExecutionResultView {
        ExecutionResultView::Failure(ErrorView::of_preprocessing(error), 0)
    }

    /// The result of a run that the executor ended with `outcome`: its effect
    /// or its error, and in both cases the gas it reported.
    pub open spec fn concluded(
        outcome: (Result<Map<Key, Transform>, ExecutionError>, u64),
    ) -> ExecutionResultView {
        match outcome.0 {
            Ok(effect) => ExecutionResultView::Success(effect, outcome.1),
            Err(error) => ExecutionResultView::Failure(ErrorView::ExecError(error), outcome.1),
        }
    }
}

impl ExecutionResult {
    /// The gas used.
    pub fn cost(&self) -> (cost: u64)
        ensures
            cost == self@.cost(),
    {
        match self {
            ExecutionResult::Success(_, cost) => *cost,
            ExecutionResult::Failure(_, cost) => *cost,
        }
    }

    /// The result of a deploy that preprocessing refused with `error`.
    pub fn refuse(error: PreprocessingError) -> (result: ExecutionResult)
        ensures
            result@ == ExecutionResultView::refused(error@),
    {
        ExecutionResult::Failure(Error::from(error), 0)
    }

    /// The result of a run that ended with `outcome` after using `cost` gas.
    pub fn conclude(outcome: Result<Effect, ExecutionError>, cost: u64) -> (result:
        ExecutionResult)
        ensures
            result@ == ExecutionResultView::concluded(executed_view((outcome, cost))),
    {
        match outcome {
            Ok(effect) => ExecutionResult::Success(effect, cost),
            Err(error) => ExecutionResult::Failure(Error::from(error), cost),
        }
    }
}

/// What `run_deploy` returns, with the result taken by its view.
pub open spec fn deploy_view(outcome: Result<ExecutionResult, RootNotFound>) -> Result<
    ExecutionResultView,
    RootNotFound,
> {
    match outcome {
        Ok(result) => Ok(result@),
        Err(missing) => Err(missing),
    }
}

/// What a deploy comes to when the store is `store` at the moment of the
/// checkout.
///
/// Bytecode that the preprocessor refuses fails at no cost, whatever the
/// store holds. Otherwise a prestate root without a snapshot is reported
/// missing, and that is no execution result. Otherwise the module runs on a
/// fresh view of the snapshot, and what the executor returns is the result.
pub open spec fn deployed<H: History, P: Preprocessor, E: Executor>(
    store: H,
    preprocessor: P,
    executor: E,
    wasm_costs: WasmCosts,
    module_bytes: Seq<u8>,
    address: [u8; 20],
    timestamp: u64,
    nonce: u64,
    prestate_hash: [u8; 32],
    gas_limit: u64,
) -> Result<ExecutionResultView, RootNotFound> {
    match preprocessor.preprocessed(module_bytes, wasm_costs) {
        Err(error) => Ok(ExecutionResultView::refused(error)),
        Ok(module) => match checked_out(store.snapshots(), prestate_hash) {
            Err(missing) => Err(missing),
            Ok(state) => Ok(
                ExecutionResultView::concluded(
                    executor.executed(module, address, timestamp, nonce, gas_limit, state),
                ),
            ),
        },
    }
}

/// Whether a commit of `effect` on `prestate_hash` may take the store from
/// `before` to `after` and end in `outcome`.
pub open spec fn committed<H: History>(
    before: H,
    after: H,
    prestate_hash: [u8; 32],
    effect: Map<Key, Transform>,
    outcome: Result<CommitResult, RootNotFound>,
) -> bool {
    commit_allowed(
        before.snapshots(),
        before.frontier(),
        after.snapshots(),
        after.frontier(),
        prestate_hash,
        effect,
        outcome,
    )
}

/// A deploy that the preprocessor refuses fails with the refusal's message
/// and uses no gas, whatever the store holds and whether or not it knows the
/// prestate root.
pub proof fn lemma_refused_deploy_costs_nothing<H: History, P: Preprocessor, E: Executor>(
    store: H,
    preprocessor: P,
    executor: E,
    wasm_costs: WasmCosts,
    module_bytes: Seq<u8>,
    address: [u8; 20],
    timestamp: u64,
    nonce: u64,
    prestate_hash: [u8; 32],
    gas_limit: u64,
)
    requires
        preprocessor.preprocessed(module_bytes, wasm_costs) is Err,
    ensures
        deployed(
            store,
            preprocessor,
            executor,
            wasm_costs,
            module_bytes,
            address,
            timestamp,
            nonce,
            prestate_hash,
            gas_limit,
        ) matches Ok(ExecutionResultView::Failure(error, cost)) && cost == 0 && error
            == ErrorView::PreprocessingError(
            preprocessor.preprocessed(module_bytes, wasm_costs)->Err_0.message(),
        ),
{
}

/// A deploy whose bytecode passes preprocessing, against a root under which
/// the store holds no snapshot, is answered with that root reported missing
/// and with no execution result.
pub proof fn lemma_unknown_root_is_reported<H: History, P: Preprocessor, E: Executor>(
    store: H,
    preprocessor: P,
    executor: E,
    wasm_costs: WasmCosts,
    module_bytes: Seq<u8>,
    address: [u8; 20],
    timestamp: u64,
    nonce: u64,
    prestate_hash: [u8; 32],
    gas_limit: u64,
)
    requires
        preprocessor.preprocessed(module_bytes, wasm_costs) is Ok,
        !store.snapshots().contains_key(prestate_hash),
    ensures
        deployed(
            store,
            preprocessor,
            executor,
            wasm_costs,
            module_bytes,
            address,
            timestamp,
            nonce,
            prestate_hash,
            gas_limit,
        ) == Err::<ExecutionResultView, RootNotFound>(RootNotFound(prestate_hash)),
{
}

/// A deploy is a function of its inputs and of the snapshot under its
/// prestate root: two stores that agree on that root give the same result,
/// whatever else either of them holds.
pub proof fn lemma_deploy_is_reproducible<H: History, P: Preprocessor, E: Executor>(
    store: H,
    other: H,
    preprocessor: P,
    executor: E,
    wasm_costs: WasmCosts,
    module_bytes: Seq<u8>,
    address: [u8; 20],
    timestamp: u64,
    nonce: u64,
    prestate_hash: [u8; 32],
    gas_limit: u64,
)
    requires
        store.snapshots().contains_key(prestate_hash) == other.snapshots().contains_key(
            prestate_hash,
        ),
        store.snapshots().contains_key(prestate_hash) ==> store.snapshots()[prestate_hash]
            == other.snapshots()[prestate_hash],
    ensures
        deployed(
            store,
            preprocessor,
            executor,
            wasm_costs,
            module_bytes,
            address,
            timestamp,
            nonce,
            prestate_hash,
            gas_limit,
        ) == deployed(
            other,
            preprocessor,
            executor,
            wasm_costs,
            module_bytes,
            address,
            timestamp,
            nonce,
            prestate_hash,
            gas_limit,
        ),
{
}

/// A commit on a root that is not in the frontier reports the root missing
/// and leaves the store as it was.
pub proof fn lemma_stale_root_is_reported<H: History>(
    before: H,
    after: H,
    prestate_hash: [u8; 32],
    effect: Map<Key, Transform>,
    outcome: Result<CommitResult, RootNotFound>,
)
    requires
        committed(before, after, prestate_hash, effect, outcome),
        !before.frontier().contains(prestate_hash),
    ensures
        outcome == Err::<CommitResult, RootNotFound>(RootNotFound(prestate_hash)),
        after.snapshots() == before.snapshots(),
        after.frontier() == before.frontier(),
{
}

/// A root that a commit has built on is stale from then on: once a commit on
/// it has given a new root, the next commit on it reports it missing,
/// whatever its effect.
pub proof fn lemma_superseded_root_is_stale<H: History>(
    before: H,
    between: H,
    after: H,
    prestate_hash: [u8; 32],
    new_root: [u8; 32],
    effect: Map<Key, Transform>,
    later_effect: Map<Key, Transform>,
    outcome: Result<CommitResult, RootNotFound>,
)
    requires
        committed(
            before,
            between,
            prestate_hash,
            effect,
            Ok::<CommitResult, RootNotFound>(CommitResult::Success(new_root)),
        ),
        new_root != prestate_hash,
        committed(between, after, prestate_hash, later_effect, outcome),
    ensures
        outcome == Err::<CommitResult, RootNotFound>(RootNotFound(prestate_hash)),
{
}

/// After a commit that succeeded, a checkout at the new root gives a fresh
/// view of the state after the effect: under every key that the effect
/// names, what its change makes of the old value; under every other key, the
/// old value. And every snapshot that the store held before, the one under
/// the prestate root among them, is still there unchanged.
pub proof fn lemma_commit_then_checkout<H: History>(
    before: H,
    after: H,
    prestate_hash: [u8; 32],
    new_root: [u8; 32],
    effect: Map<Key, Transform>,
)
    requires
        committed(
            before,
            after,
            prestate_hash,
            effect,
            Ok::<CommitResult, RootNotFound>(CommitResult::Success(new_root)),
        ),
    ensures
        checked_out(after.snapshots(), new_root) == Ok::<TrackingCopyView, RootNotFound>(
            TrackingCopyView::fresh(state_after(before.snapshots()[prestate_hash], effect)),
        ),
        forall|key: Key|
            effect.contains_key(key) ==> effect[key].applied(
                key,
                lookup(before.snapshots()[prestate_hash], key),
            ) == Ok::<Option<Value>, StorageError>(
                #[trigger] lookup(after.snapshots()[new_root], key),
            ),
        forall|key: Key|
            !effect.contains_key(key) ==> #[trigger] lookup(after.snapshots()[new_root], key)
                == lookup(before.snapshots()[prestate_hash], key),
        forall|root: [u8; 32]|
            before.snapshots().contains_key(root) ==> after.snapshots().contains_key(root)
                && #[trigger] after.snapshots()[root] == before.snapshots()[root],
{
    let state = before.snapshots()[prestate_hash];
    assert forall|key: Key| effect.contains_key(key) implies effect[key].applied(
        key,
        lookup(state, key),
    ) == Ok::<Option<Value>, StorageError>(
        #[trigger] lookup(after.snapshots()[new_root], key),
    ) by {
        assert(value_after(state, effect, key) is Ok);
    }
}

/// The engine of one node: its state store, behind a lock, and the cost
/// schedule that every deploy is preprocessed with.
#[verifier::reject_recursive_types(H)]
pub struct EngineState<H: History> {
    state: Mutex<H>,
    wasm_costs: WasmCosts,
}

impl<H: History> EngineState<H> {
    /// The cost schedule, fixed when the engine is made.
    pub closed spec fn costs(&self) -> WasmCosts {
        self.wasm_costs
    }

    /// An engine on the store `state`, with the standard cost schedule.
    pub fn new(state: H) -> (engine: EngineState<H>)
        ensures
            engine.costs() == WasmCosts::standard(),
    {
        EngineState { state: guarded(state), wasm_costs: WasmCosts::new() }
    }

    /// Runs one deploy against the snapshot under `prestate_hash`.
    ///
    /// The store is locked for the checkout alone and is never written to:
    /// the result is what `deployed` gives for the store as it stood at that
    /// moment. The gas reported never exceeds `gas_limit`, and a deploy that
    /// preprocessing refuses reports none.
    pub fn run_deploy<P: Preprocessor, E: Executor>(
        &self,
        module_bytes: &[u8],
        address: [u8; 20],
        timestamp: u64,
        nonce: u64,
        prestate_hash: [u8; 32],
        gas_limit: u64,
        executor: &E,
        preprocessor: &P,
    ) -> (outcome: Result<ExecutionResult, RootNotFound>)
        ensures
            exists|store: H|
                deploy_view(outcome) == #[trigger] deployed(
                    store,
                    *preprocessor,
                    *executor,
                    self.costs(),
                    module_bytes@,
                    address,
                    timestamp,
                    nonce,
                    prestate_hash,
                    gas_limit,
                ),
            preprocessor.preprocessed(module_bytes@, self.costs()) matches Err(error)
                ==> deploy_view(outcome) == Ok::<ExecutionResultView, RootNotFound>(
                ExecutionResultView::refused(error),
            ),
            outcome matches Ok(result) ==> result@.cost() <= gas_limit,
            outcome matches Err(missing) ==> missing == RootNotFound(prestate_hash),
    {
        let ghost mut store: H = arbitrary();
        let outcome = match preprocessor.preprocess(module_bytes, &self.wasm_costs) {
            Err(error) => Ok(ExecutionResult::refuse(error)),
            Ok(module) => {
                let checked = {
                    let guard = lock(&self.state);
                    let current = held(&guard);
                    proof {
                        store = *current;
                    }
                    current.checkout(prestate_hash)
                };
                match checked {
                    Err(missing) => Err(missing),
                    Ok(mut tc) => {
                        let (run, cost) = executor.exec(
                            module,
                            address,
                            timestamp,
                            nonce,
                            gas_limit,
                            &mut tc,
                        );
                        Ok(ExecutionResult::conclude(run, cost))
                    },
                }
            },
        };
        assert(deploy_view(outcome) == deployed(
            store,
            *preprocessor,
            *executor,
            self.costs(),
            module_bytes@,
            address,
            timestamp,
            nonce,
            prestate_hash,
            gas_limit,
        ));
        outcome
    }

    /// Commits `effects` on top of the snapshot under `prestate_hash`.
    ///
    /// The store is locked for the whole commit, so the commit takes it from
    /// one state to the next in one step, as `commit_allowed` describes: a
    /// root outside the frontier is reported missing, and only a success
    /// changes the store.
    pub fn apply_effect(&self, prestate_hash: [u8; 32], effects: Effect) -> (outcome: Result<
        CommitResult,
        RootNotFound,
    >)
        ensures
            exists|before: H, after: H| #[trigger]
                committed(before, after, prestate_hash, effects@, outcome),
            outcome matches Err(missing) ==> missing == RootNotFound(prestate_hash),
    {
        let mut guard = lock(&self.state);
        let store = held_mut(&mut guard);
        let ghost before = *store;
        let outcome = store.commit(prestate_hash, effects);
        assert(committed(before, *store, prestate_hash, effects@, outcome));
        outcome
    }
}

} // verus!
