//! Diagnostics. Two disjoint error kinds: type errors, raised when a
//! user-written instruction tree does not fit its consumer's expectation,
//! and internal-consistency errors, raised when an index that the
//! module-construction invariants guarantee to be valid is out of range —
//! the latter signal a bug in the front end, not a user mistake.

use vstd::prelude::*;
use crate::wasm::{Location, WasmValueType};

verus! {

/// Why the type checker rejected a user-written instruction tree.
#[derive(Debug)]
pub enum TypeErrorKind {
    /// A loop body yields one or more values; loop results are restricted
    /// to the empty type list.
    ExcessValuesInLoop,
    /// A call's arguments do not match the callee's declared inputs, by
    /// count or positionally.
    CallMismatch { fn_index: u32, expected: Vec<WasmValueType>, actual: Vec<WasmValueType> },
}

/// Which structurally-guaranteed lookup failed.
#[derive(Debug)]
pub enum InternalErrorKind {
    GlobalIndexOutOfRange { global_index: u32 },
    LocalIndexOutOfRange { local_index: u32 },
    FnIndexOutOfRange { fn_index: u32 },
    TypeIndexOutOfRange { type_index: u32 },
    FunctionTypeIndexOutOfRange { function_index: usize },
    ImportTypeIndexOutOfRange { import_index: usize },
    ExportIndexOutOfRange { export_index: usize },
    CodeCountMismatch,
    InvalidGlobalInitializer { global_index: usize },
    UnresolvedCode { function_index: usize },
    InvalidDataSegment { data_index: usize },
}

/// A diagnostic carrying the source location of the offending node; for
/// module-level findings the location is the zero location.
#[derive(Debug)]
pub enum CompileError {
    Type { kind: TypeErrorKind, loc: Location },
    Internal { kind: InternalErrorKind, loc: Location },
}

/// The short description [`CompileError::message`] returns.
pub open spec fn message_of(e: CompileError) -> Seq<char> {
    match e {
        CompileError::Type { kind: TypeErrorKind::ExcessValuesInLoop, .. } =>
            "TypeError: excess values in loop"@,
        CompileError::Type { kind: TypeErrorKind::CallMismatch { .. }, .. } =>
            "TypeError: mismatched arguments for function call"@,
        CompileError::Internal { .. } => "internal consistency error: invalid index"@,
    }
}

impl CompileError {
    /// A short human-readable description; the structured fields carry the
    /// offending indices and types.
    pub fn message(&self) -> (r: &'static str)
        ensures
            r@ == message_of(*self),
    {
        match self {
            CompileError::Type { kind: TypeErrorKind::ExcessValuesInLoop, .. } =>
                "TypeError: excess values in loop",
            CompileError::Type { kind: TypeErrorKind::CallMismatch { .. }, .. } =>
                "TypeError: mismatched arguments for function call",
            CompileError::Internal { .. } => "internal consistency error: invalid index",
        }
    }

    /// True of user-facing type errors, false of internal-consistency
    /// errors.
    pub fn is_type_error(&self) -> (r: bool)
        ensures
            r == (self is Type),
    {
        match self {
            CompileError::Type { .. } => true,
            CompileError::Internal { .. } => false,
        }
    }
}

} // verus!
