//! The error taxonomy of the engine: parse-time syntax errors and the
//! evaluation error kinds, each raised on exactly the inputs its contract
//! names.
use vstd::prelude::*;

verus! {

/// A parse failure: the offset (in characters) where parsing stopped and a
/// short statement of what was expected there.
#[derive(Debug, Clone)]
pub struct SyntaxError {
    pub offset: usize,
    pub expected: String,
}

/// An evaluation failure.
#[derive(Debug, Clone)]
pub enum EvalError {
    /// A path segment names no field of the batch (or struct column).
    UnknownField(String),
    /// A dotted path descends into a column that is not a struct.
    NotAStruct(String),
    /// The operation is not defined for the value's type.
    UnsupportedType,
    /// The two comparison operands have no supported broadcast.
    UnsupportedComparison,
    /// The logic operands are not both masks or both boolean scalars.
    UnsupportedLogic,
    /// A filter predicate did not reduce to a boolean mask.
    InvalidPredicate,
    /// The left side of a pipe did not reduce to a batch.
    PipeRequiresBatch,
    /// A projection outside the supported trivial list case.
    ProjectionUnsupported,
    /// Flatten of something other than a list-of-integer column.
    FlattenUnsupported,
    /// A scalar in a multi-select over a non-empty batch.
    ScalarInMultiSelect,
    /// A parsed construct whose evaluation is out of scope.
    NotImplemented,
    /// A normalized index outside `[0, len)`.
    IndexOutOfBounds,
    /// The indexed element is null.
    NullIndex,
    /// A slice with step zero.
    InvalidSlice,
    /// A function name outside the built-in table.
    UnknownFunction(String),
    /// A built-in called with the wrong number of arguments.
    ArityMismatch { name: String, got: usize, expected: usize },
    /// A built-in called with an argument of the wrong kind.
    ArgumentKindMismatch { name: String, pos: usize },
    /// An expression reference (`&`) outside a function argument position.
    InvalidExprRefUse,
    /// A failure of a kernel-level consistency check (column length
    /// mismatches, aggregation over an empty column).
    KernelError(String),
}

/// Mathematical model of an evaluation error: the kind, with the payloads
/// that the contracts pin down (the human-readable detail of `KernelError`
/// is not part of the model).
pub enum ErrV {
    UnknownField(Seq<char>),
    NotAStruct(Seq<char>),
    UnsupportedType,
    UnsupportedComparison,
    UnsupportedLogic,
    InvalidPredicate,
    PipeRequiresBatch,
    ProjectionUnsupported,
    FlattenUnsupported,
    ScalarInMultiSelect,
    NotImplemented,
    IndexOutOfBounds,
    NullIndex,
    InvalidSlice,
    UnknownFunction(Seq<char>),
    ArityMismatch { name: Seq<char>, got: nat, expected: nat },
    ArgumentKindMismatch { name: Seq<char>, pos: nat },
    InvalidExprRefUse,
    KernelError,
}

impl View for EvalError {
    type V = ErrV;

    open spec fn view(&self) -> ErrV {
        match self {
            EvalError::UnknownField(s) => ErrV::UnknownField(s@),
            EvalError::NotAStruct(s) => ErrV::NotAStruct(s@),
            EvalError::UnsupportedType => ErrV::UnsupportedType,
            EvalError::UnsupportedComparison => ErrV::UnsupportedComparison,
            EvalError::UnsupportedLogic => ErrV::UnsupportedLogic,
            EvalError::InvalidPredicate => ErrV::InvalidPredicate,
            EvalError::PipeRequiresBatch => ErrV::PipeRequiresBatch,
            EvalError::ProjectionUnsupported => ErrV::ProjectionUnsupported,
            EvalError::FlattenUnsupported => ErrV::FlattenUnsupported,
            EvalError::ScalarInMultiSelect => ErrV::ScalarInMultiSelect,
            EvalError::NotImplemented => ErrV::NotImplemented,
            EvalError::IndexOutOfBounds => ErrV::IndexOutOfBounds,
            EvalError::NullIndex => ErrV::NullIndex,
            EvalError::InvalidSlice => ErrV::InvalidSlice,
            EvalError::UnknownFunction(s) => ErrV::UnknownFunction(s@),
            EvalError::ArityMismatch { name, got, expected } => ErrV::ArityMismatch {
                name: name@,
                got: *got as nat,
                expected: *expected as nat,
            },
            EvalError::ArgumentKindMismatch { name, pos } => ErrV::ArgumentKindMismatch {
                name: name@,
                pos: *pos as nat,
            },
            EvalError::InvalidExprRefUse => ErrV::InvalidExprRefUse,
            EvalError::KernelError(_) => ErrV::KernelError,
        }
    }
}

} // verus!
