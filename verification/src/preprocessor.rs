//! The bytecode preprocessor as the engine sees it: the cost schedule it is
//! handed, the module it produces, and the ways in which it can refuse a
//! deploy.

use vstd::prelude::*;

verus! {

/// The table of gas costs that the preprocessor charges for each kind of
/// operation when it instruments a module.
#[derive(Clone, Copy, Debug, PartialEq, Eq)]
pub struct WasmCosts {
    /// Cost of an ordinary instruction.
    pub regular: u32,
    /// Cost of a division.
    pub div: u32,
    /// Cost of a multiplication.
    pub mul: u32,
    /// Cost of a memory access.
    pub mem: u32,
    /// Cost of the memory that a module starts with.
    pub initial_mem: u32,
    /// Cost of growing memory by one page.
    pub grow_mem: u32,
    /// Cost of copying one byte.
    pub memcpy: u32,
    /// Greatest stack height a module may reach.
    pub max_stack_height: u32,
    /// Numerator of the factor applied to opcode costs.
    pub opcodes_mul: u32,
    /// Denominator of the factor applied to opcode costs.
    pub opcodes_div: u32,
}

impl WasmCosts {
    /// The schedule every engine starts with.
    pub open spec fn standard() -> WasmCosts {
        WasmCosts {
            regular: 1,
            div: 16,
            mul: 4,
            mem: 2,
            initial_mem: 4096,
            grow_mem: 8192,
            memcpy: 1,
            max_stack_height: 65536,
            opcodes_mul: 3,
            opcodes_div: 8,
        }
    }

    /// Builds the standard schedule.
    pub fn new() -> (costs: WasmCosts)
        ensures
            costs == WasmCosts::standard(),
    {
        WasmCosts {
            regular: 1,
            div: 16,
            mul: 4,
            mem: 2,
            initial_mem: 4096,
            grow_mem: 8192,
            memcpy: 1,
            max_stack_height: 65536,
            opcodes_mul: 3,
            opcodes_div: 8,
        }
    }
}

/// Bytecode that passed preprocessing: validated, metered and ready to run.
#[derive(Debug, PartialEq, Eq)]
pub struct Module {
    /// The instrumented code.
    pub code: Vec<u8>,
}

impl View for Module {
    type V = Seq<u8>;

    open spec fn view(&self) -> Seq<u8> {
        self.code@
    }
}

/// Why a preprocessor refused a deploy.
#[derive(Debug, PartialEq, Eq)]
pub enum PreprocessingError {
    /// The module imports something it may not; the text says what.
    InvalidImportsError(String),
    /// The module has no export section.
    NoExportSection,
    /// The module has no import section.
    NoImportSection,
    /// The bytes are not a module; the text says why.
    DeserializeError(String),
    /// The module holds an operation that cannot be metered.
    OperationForbiddenByGasRules,
    /// The stack height limiter could not be injected.
    StackLimiterError,
}

/// A preprocessing error with its texts as sequences of characters.
pub enum PreprocessingErrorView {
    InvalidImportsError(Seq<char>),
    NoExportSection,
    NoImportSection,
    DeserializeError(Seq<char>),
    OperationForbiddenByGasRules,
    StackLimiterError,
}

impl View for PreprocessingError {
    type V = PreprocessingErrorView;

    open spec fn view(&self) -> PreprocessingErrorView {
        match self {
            PreprocessingError::InvalidImportsError(detail) => {
                PreprocessingErrorView::InvalidImportsError(detail@)
            },
            PreprocessingError::NoExportSection => PreprocessingErrorView::NoExportSection,
            PreprocessingError::NoImportSection => PreprocessingErrorView::NoImportSection,
            PreprocessingError::DeserializeError(detail) => {
                PreprocessingErrorView::DeserializeError(detail@)
            },
            PreprocessingError::OperationForbiddenByGasRules => {
                PreprocessingErrorView::OperationForbiddenByGasRules
            },
            PreprocessingError::StackLimiterError => PreprocessingErrorView::StackLimiterError,
        }
    }
}

impl PreprocessingErrorView {
    /// The text under which the engine reports this error. Every variant has
    /// one; the two that carry a detail report that detail.
    pub open spec fn message(self) -> Seq<char> {
        match self {
            PreprocessingErrorView::InvalidImportsError(detail) => detail,
            PreprocessingErrorView::NoExportSection => "No export section found."@,
            PreprocessingErrorView::NoImportSection => "No import section found,"@,
            PreprocessingErrorView::DeserializeError(detail) => detail,
            PreprocessingErrorView::OperationForbiddenByGasRules => {
                "Encountered operation forbidden by gas rules. Consult instruction -> metering config map."@
            },
            PreprocessingErrorView::StackLimiterError => {
                "Wasm contract error: Stack limiter error."@
            },
        }
    }
}

/// What preprocessing yields, with module and error taken by their views.
pub open spec fn preprocessed_view(
    outcome: Result<Module, PreprocessingError>,
) -> Result<Seq<u8>, PreprocessingErrorView> {
    match outcome {
        Ok(module) => Ok(module@),
        Err(error) => Err(error@),
    }
}

/// Validates raw bytecode and instruments it for metering.
///
/// A preprocessor is a function of the bytes and the cost schedule:
/// `preprocessed` names what it yields, and `preprocess` computes it.
/// `preprocessed` has a placeholder body so that a preprocessor built without
/// the verifier need not supply it; a verified one overrides it.
pub trait Preprocessor {
    /// What this preprocessor makes of `module_bytes` under `wasm_costs`.
    open spec fn preprocessed(&self, module_bytes: Seq<u8>, wasm_costs: WasmCosts) -> Result<
        Seq<u8>,
        PreprocessingErrorView,
    > {
        arbitrary()
    }

    /// Preprocesses `module_bytes`, charging by `wasm_costs`.
    fn preprocess(&self, module_bytes: &[u8], wasm_costs: &WasmCosts) -> (outcome: Result<
        Module,
        PreprocessingError,
    >)
        ensures
            preprocessed_view(outcome) == self.preprocessed(module_bytes@, *wasm_costs),
    ;
}

} // verus!
