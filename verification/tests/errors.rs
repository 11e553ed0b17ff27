use execution_engine::engine::{Error, ExecutionResult};
use execution_engine::executor::ExecutionError;
use execution_engine::key::{Key, Value};
use execution_engine::preprocessor::{PreprocessingError, WasmCosts};
use execution_engine::state::Effect;
use execution_engine::transform::{StorageError, Transform};

fn message(error: PreprocessingError) -> String {
    match Error::from(error) {
        Error::PreprocessingError(message) => message,
        other => panic!("unexpected error {:?}", other),
    }
}

#[test]
fn invalid_imports_keep_their_detail() {
    let error = PreprocessingError::InvalidImportsError(String::from("env.memory"));
    assert_eq!(message(error), "env.memory");
}

#[test]
fn missing_export_section_has_its_message() {
    assert_eq!(message(PreprocessingError::NoExportSection), "No export section found.");
}

#[test]
fn missing_import_section_has_its_message() {
    assert_eq!(message(PreprocessingError::NoImportSection), "No import section found,");
}

#[test]
fn deserialize_error_keeps_its_detail() {
    let error = PreprocessingError::DeserializeError(String::from("bad magic"));
    assert_eq!(message(error), "bad magic");
}

#[test]
fn forbidden_operation_has_its_message() {
    assert_eq!(
        message(PreprocessingError::OperationForbiddenByGasRules),
        "Encountered operation forbidden by gas rules. Consult instruction -> metering config map."
    );
}

#[test]
fn stack_limiter_error_has_its_message() {
    assert_eq!(
        message(PreprocessingError::StackLimiterError),
        "Wasm contract error: Stack limiter error."
    );
}

#[test]
fn empty_detail_stays_empty() {
    assert_eq!(message(PreprocessingError::DeserializeError(String::new())), "");
}

#[test]
fn conversion_through_into_gives_the_same_error() {
    let error: Error = PreprocessingError::NoImportSection.into();
    assert_eq!(error, Error::PreprocessingError(String::from("No import section found,")));
}

#[test]
fn execution_error_is_wrapped_as_it_is() {
    let key = Key::URef([2u8; 32]);
    assert_eq!(Error::from(ExecutionError::GasLimit), Error::ExecError(ExecutionError::GasLimit));
    assert_eq!(
        Error::from(ExecutionError::ForgedReference(key)),
        Error::ExecError(ExecutionError::ForgedReference(key))
    );
    assert_eq!(
        Error::from(ExecutionError::Storage(StorageError::TypeMismatch(key))),
        Error::ExecError(ExecutionError::Storage(StorageError::TypeMismatch(key)))
    );
    assert_eq!(Error::from(ExecutionError::Interpreter), Error::ExecError(ExecutionError::Interpreter));
}

#[test]
fn storage_error_is_wrapped_as_it_is() {
    let key = Key::Account([1u8; 20]);
    assert_eq!(
        Error::from(StorageError::KeyNotFound(key)),
        Error::StorageError(StorageError::KeyNotFound(key))
    );
    assert_eq!(
        Error::from(StorageError::RootsExhausted),
        Error::StorageError(StorageError::RootsExhausted)
    );
}

#[test]
fn refused_deploy_is_a_failure_without_cost() {
    match ExecutionResult::refuse(PreprocessingError::StackLimiterError) {
        ExecutionResult::Failure(error, cost) => {
            assert_eq!(
                error,
                Error::PreprocessingError(String::from("Wasm contract error: Stack limiter error."))
            );
            assert_eq!(cost, 0);
        }
        other => panic!("unexpected result {:?}", other),
    }
}

#[test]
fn concluded_run_carries_effect_and_cost() {
    let key = Key::Hash([5u8; 32]);
    let mut effect = Effect::new();
    effect.insert(key, Transform::Write(Value::Int32(4)));
    match ExecutionResult::conclude(Ok(effect), 77) {
        ExecutionResult::Success(effect, cost) => {
            assert_eq!(effect.get(&key), Some(Transform::Write(Value::Int32(4))));
            assert_eq!(effect.len(), 1);
            assert_eq!(cost, 77);
        }
        other => panic!("unexpected result {:?}", other),
    }
}

#[test]
fn concluded_failure_carries_error_and_cost() {
    let key = Key::Hash([5u8; 32]);
    match ExecutionResult::conclude(Err(ExecutionError::KeyNotFound(key)), u64::MAX) {
        ExecutionResult::Failure(error, cost) => {
            assert_eq!(error, Error::ExecError(ExecutionError::KeyNotFound(key)));
            assert_eq!(cost, u64::MAX);
        }
        other => panic!("unexpected result {:?}", other),
    }
}

#[test]
fn standard_schedule_has_its_costs() {
    let costs = WasmCosts::new();
    assert_eq!(costs.regular, 1);
    assert_eq!(costs.div, 16);
    assert_eq!(costs.mul, 4);
    assert_eq!(costs.mem, 2);
    assert_eq!(costs.initial_mem, 4096);
    assert_eq!(costs.grow_mem, 8192);
    assert_eq!(costs.memcpy, 1);
    assert_eq!(costs.max_stack_height, 65536);
    assert_eq!(costs.opcodes_mul, 3);
    assert_eq!(costs.opcodes_div, 8);
}
