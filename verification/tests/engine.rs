use execution_engine::engine::{EngineState, Error, ExecutionResult};
use execution_engine::executor::{ExecutionError, Executor};
use execution_engine::history::{CommitResult, RootNotFound};
use execution_engine::in_memory::InMemHist;
use execution_engine::key::{Key, Value};
use execution_engine::preprocessor::{Module, PreprocessingError, Preprocessor, WasmCosts};
use execution_engine::state::{Effect, Snapshot};
use execution_engine::tracking_copy::TrackingCopy;
use execution_engine::transform::{StorageError, Transform};

const GENESIS: [u8; 32] = [0u8; 32];
const ACCOUNT: [u8; 20] = [48u8; 20];

fn key() -> Key {
    Key::Hash([7u8; 32])
}

/// Passes every bytecode on as it is.
struct Accepting;

impl Preprocessor for Accepting {
    fn preprocess(
        &self,
        module_bytes: &[u8],
        _wasm_costs: &WasmCosts,
    ) -> Result<Module, PreprocessingError> {
        Ok(Module { code: module_bytes.to_vec() })
    }
}

/// Refuses every bytecode for want of an export section.
struct NoExports;

impl Preprocessor for NoExports {
    fn preprocess(
        &self,
        _module_bytes: &[u8],
        _wasm_costs: &WasmCosts,
    ) -> Result<Module, PreprocessingError> {
        Err(PreprocessingError::NoExportSection)
    }
}

/// Refuses every bytecode with the error of the given number.
struct Refusing(u8);

impl Refusing {
    fn error(&self) -> PreprocessingError {
        match self.0 {
            0 => PreprocessingError::InvalidImportsError(String::from("env.nothing")),
            1 => PreprocessingError::NoExportSection,
            2 => PreprocessingError::NoImportSection,
            3 => PreprocessingError::DeserializeError(String::from("unexpected end")),
            4 => PreprocessingError::OperationForbiddenByGasRules,
            _ => PreprocessingError::StackLimiterError,
        }
    }
}

impl Preprocessor for Refusing {
    fn preprocess(
        &self,
        _module_bytes: &[u8],
        _wasm_costs: &WasmCosts,
    ) -> Result<Module, PreprocessingError> {
        Err(self.error())
    }
}

/// Accepts bytecode only when it is handed the standard cost schedule.
struct ByTheSchedule;

impl Preprocessor for ByTheSchedule {
    fn preprocess(
        &self,
        module_bytes: &[u8],
        wasm_costs: &WasmCosts,
    ) -> Result<Module, PreprocessingError> {
        if *wasm_costs == WasmCosts::new() {
            Ok(Module { code: module_bytes.to_vec() })
        } else {
            Err(PreprocessingError::OperationForbiddenByGasRules)
        }
    }
}

/// Writes one value and returns the effect, at a fixed cost.
struct Writing {
    value: i32,
    cost: u64,
}

impl Executor for Writing {
    fn exec(
        &self,
        _module: Module,
        _address: [u8; 20],
        _timestamp: u64,
        _nonce: u64,
        _gas_limit: u64,
        tc: &mut TrackingCopy,
    ) -> (Result<Effect, ExecutionError>, u64) {
        tc.write(key(), Value::Int32(self.value));
        (Ok(tc.effect()), self.cost)
    }
}

/// Writes one value and then runs out of gas.
struct WritingUntilOutOfGas;

impl Executor for WritingUntilOutOfGas {
    fn exec(
        &self,
        _module: Module,
        _address: [u8; 20],
        _timestamp: u64,
        _nonce: u64,
        gas_limit: u64,
        tc: &mut TrackingCopy,
    ) -> (Result<Effect, ExecutionError>, u64) {
        tc.write(key(), Value::Int32(1));
        (Err(ExecutionError::GasLimit), gas_limit)
    }
}

/// Reads one key and reports what it holds: an effect that writes the value
/// back if there is one, a failure if there is none.
struct Reading;

impl Executor for Reading {
    fn exec(
        &self,
        _module: Module,
        _address: [u8; 20],
        _timestamp: u64,
        _nonce: u64,
        _gas_limit: u64,
        tc: &mut TrackingCopy,
    ) -> (Result<Effect, ExecutionError>, u64) {
        match tc.read(&key()) {
            Some(value) => {
                let mut effect = Effect::new();
                effect.insert(key(), Transform::Write(value));
                (Ok(effect), 1)
            }
            None => (Err(ExecutionError::KeyNotFound(key())), 1),
        }
    }
}

/// Reports the module's bytes and the call's numbers in its cost.
struct Echoing;

impl Executor for Echoing {
    fn exec(
        &self,
        module: Module,
        address: [u8; 20],
        timestamp: u64,
        nonce: u64,
        gas_limit: u64,
        _tc: &mut TrackingCopy,
    ) -> (Result<Effect, ExecutionError>, u64) {
        let sum = module.code.len() as u64 + address[0] as u64 + timestamp + nonce;
        (Ok(Effect::new()), sum.min(gas_limit))
    }
}

fn genesis_state() -> Snapshot {
    let mut state = Snapshot::new();
    state.insert(Key::Account(ACCOUNT), Value::Int32(0));
    state
}

fn engine() -> EngineState<InMemHist> {
    EngineState::new(InMemHist::new_initialized(&GENESIS, genesis_state()))
}

fn engine_with(value: i32) -> EngineState<InMemHist> {
    let mut state = genesis_state();
    state.insert(key(), Value::Int32(value));
    EngineState::new(InMemHist::new_initialized(&GENESIS, state))
}

/// What the store holds under `key()` at `root`, read through a deploy.
fn value_at(engine: &EngineState<InMemHist>, root: [u8; 32]) -> Option<Value> {
    match engine.run_deploy(&[1], ACCOUNT, 0, 0, root, 10, &Reading, &Accepting) {
        Ok(ExecutionResult::Success(effect, _)) => match effect.get(&key()) {
            Some(Transform::Write(value)) => Some(value),
            other => panic!("unexpected change {:?}", other),
        },
        Ok(ExecutionResult::Failure(Error::ExecError(ExecutionError::KeyNotFound(_)), _)) => None,
        other => panic!("unexpected result {:?}", other),
    }
}

fn write_effect(value: i32) -> Effect {
    let mut effect = Effect::new();
    effect.insert(key(), Transform::Write(Value::Int32(value)));
    effect
}

#[test]
fn missing_export_section_fails_at_no_cost() {
    let result = engine().run_deploy(&[0, 1, 2], ACCOUNT, 1, 1, GENESIS, 1000, &Writing { value: 1, cost: 5 }, &NoExports);
    match result {
        Ok(ExecutionResult::Failure(error, cost)) => {
            assert_eq!(error, Error::PreprocessingError(String::from("No export section found.")));
            assert_eq!(cost, 0);
        }
        other => panic!("unexpected result {:?}", other),
    }
}

#[test]
fn refused_deploy_against_unknown_root_is_still_a_failure() {
    let result = engine().run_deploy(&[0], ACCOUNT, 1, 1, [9u8; 32], 1000, &Reading, &NoExports);
    match result {
        Ok(ExecutionResult::Failure(Error::PreprocessingError(_), 0)) => {}
        other => panic!("unexpected result {:?}", other),
    }
}

#[test]
fn out_of_gas_reports_the_cost_and_leaves_the_state() {
    let engine = engine_with(0);
    let result = engine.run_deploy(&[0], ACCOUNT, 1, 1, GENESIS, 500, &WritingUntilOutOfGas, &Accepting);
    match result {
        Ok(ExecutionResult::Failure(error, cost)) => {
            assert_eq!(error, Error::ExecError(ExecutionError::GasLimit));
            assert_eq!(cost, 500);
        }
        other => panic!("unexpected result {:?}", other),
    }
    assert_eq!(value_at(&engine, GENESIS), Some(Value::Int32(0)));
}

#[test]
fn successful_deploy_returns_the_effect_and_the_cost() {
    let engine = engine();
    let result = engine.run_deploy(&[0], ACCOUNT, 1, 1, GENESIS, 100, &Writing { value: 3, cost: 42 }, &Accepting);
    match result {
        Ok(ExecutionResult::Success(effect, cost)) => {
            assert_eq!(cost, 42);
            assert_eq!(effect.len(), 1);
            assert_eq!(effect.get(&key()), Some(Transform::Write(Value::Int32(3))));
        }
        other => panic!("unexpected result {:?}", other),
    }
    assert_eq!(value_at(&engine, GENESIS), None);
}

#[test]
fn cost_of_a_result_is_read_from_either_variant() {
    assert_eq!(ExecutionResult::Success(Effect::new(), 7).cost(), 7);
    assert_eq!(ExecutionResult::Failure(Error::StorageError(StorageError::RootsExhausted), 9).cost(), 9);
}

#[test]
fn unknown_root_is_reported_missing() {
    let result = engine().run_deploy(&[0], ACCOUNT, 1, 1, [9u8; 32], 100, &Reading, &Accepting);
    match result {
        Err(missing) => assert_eq!(missing, RootNotFound([9u8; 32])),
        other => panic!("unexpected result {:?}", other),
    }
}

#[test]
fn engine_hands_the_standard_schedule_to_the_preprocessor() {
    let result = engine().run_deploy(&[0], ACCOUNT, 1, 1, GENESIS, 100, &Echoing, &ByTheSchedule);
    assert!(matches!(result, Ok(ExecutionResult::Success(_, _))));
}

#[test]
fn engine_hands_the_call_to_the_executor() {
    let result = engine().run_deploy(&[0, 0, 0], ACCOUNT, 10, 20, GENESIS, 1000, &Echoing, &Accepting);
    match result {
        Ok(ExecutionResult::Success(effect, cost)) => {
            assert_eq!(effect.len(), 0);
            assert_eq!(cost, 3 + 48 + 10 + 20);
        }
        other => panic!("unexpected result {:?}", other),
    }
}

#[test]
fn same_deploy_twice_gives_the_same_result() {
    let engine = engine_with(5);
    let mut costs = Vec::new();
    let mut values = Vec::new();
    for _ in 0..2 {
        match engine.run_deploy(&[1, 2], ACCOUNT, 3, 4, GENESIS, 100, &Writing { value: 8, cost: 30 }, &Accepting) {
            Ok(ExecutionResult::Success(effect, cost)) => {
                costs.push(cost);
                values.push(effect.get(&key()));
            }
            other => panic!("unexpected result {:?}", other),
        }
    }
    assert_eq!(costs, vec![30, 30]);
    assert_eq!(values[0], values[1]);
    assert_eq!(values[0], Some(Transform::Write(Value::Int32(8))));
}

#[test]
fn commit_gives_a_new_root_and_keeps_the_old_snapshot() {
    let engine = engine_with(1);
    let new_root = match engine.apply_effect(GENESIS, write_effect(7)) {
        Ok(CommitResult::Success(root)) => root,
        other => panic!("unexpected result {:?}", other),
    };
    assert_ne!(new_root, GENESIS);
    assert_eq!(value_at(&engine, new_root), Some(Value::Int32(7)));
    assert_eq!(value_at(&engine, GENESIS), Some(Value::Int32(1)));
}

#[test]
fn commit_on_a_superseded_root_is_reported_missing() {
    let engine = engine();
    let first = engine.apply_effect(GENESIS, write_effect(7));
    assert!(matches!(first, Ok(CommitResult::Success(_))));
    let second = engine.apply_effect(GENESIS, write_effect(8));
    assert_eq!(second, Err(RootNotFound(GENESIS)));
}

#[test]
fn commit_on_an_unknown_root_is_reported_missing() {
    let result = engine().apply_effect([3u8; 32], write_effect(7));
    assert_eq!(result, Err(RootNotFound([3u8; 32])));
}

#[test]
fn commit_of_a_change_that_does_not_apply_is_turned_down() {
    let engine = engine();
    let mut effect = Effect::new();
    effect.insert(key(), Transform::AddInt32(1));
    let result = engine.apply_effect(GENESIS, effect);
    assert_eq!(result, Ok(CommitResult::Failure(StorageError::KeyNotFound(key()))));
    let again = engine.apply_effect(GENESIS, write_effect(2));
    assert!(matches!(again, Ok(CommitResult::Success(_))));
}

#[test]
fn commits_follow_one_another_along_the_new_roots() {
    let engine = engine_with(1);
    let mut root = GENESIS;
    for step in 0..5 {
        let mut effect = Effect::new();
        effect.insert(key(), Transform::AddInt32(10));
        root = match engine.apply_effect(root, effect) {
            Ok(CommitResult::Success(next)) => next,
            other => panic!("unexpected result {:?}", other),
        };
        assert_eq!(value_at(&engine, root), Some(Value::Int32(1 + 10 * (step + 1))));
    }
    assert_eq!(value_at(&engine, GENESIS), Some(Value::Int32(1)));
}

#[test]
fn every_refusal_fails_with_its_message_at_no_cost() {
    let messages = [
        "env.nothing",
        "No export section found.",
        "No import section found,",
        "unexpected end",
        "Encountered operation forbidden by gas rules. Consult instruction -> metering config map.",
        "Wasm contract error: Stack limiter error.",
    ];
    let engine = engine();
    for (number, message) in messages.iter().enumerate() {
        let refusing = Refusing(number as u8);
        for gas_limit in [0, 1, u64::MAX] {
            let writing = Writing { value: 1, cost: gas_limit };
            match engine.run_deploy(&[7], ACCOUNT, 1, 2, GENESIS, gas_limit, &writing, &refusing) {
                Ok(ExecutionResult::Failure(error, cost)) => {
                    assert_eq!(error, Error::PreprocessingError(String::from(*message)));
                    assert_eq!(cost, 0);
                }
                other => panic!("unexpected result {:?}", other),
            }
        }
    }
}

#[test]
fn reported_cost_stays_within_the_limit() {
    let engine = engine();
    for (cost, gas_limit) in [(0, 0), (0, 10), (10, 10), (9, 10), (u64::MAX, u64::MAX)] {
        let writing = Writing { value: 1, cost };
        match engine.run_deploy(&[7], ACCOUNT, 1, 2, GENESIS, gas_limit, &writing, &Accepting) {
            Ok(result) => {
                assert_eq!(result.cost(), cost);
                assert!(result.cost() <= gas_limit);
            }
            other => panic!("unexpected result {:?}", other),
        }
    }
}
