//! A verified back end for a small compiler targeting WebAssembly.
//!
//! The crate models a WebAssembly module as an instruction tree plus section
//! descriptors (`wasm`), derives the value types every instruction yields
//! (`type_checker`), validates the module-level index invariants (`validate`),
//! and serializes the module into the WebAssembly binary format (`codegen`,
//! `binary_builder`), using LEB128 variable-length integers (`leb128`).
//! Failures are the typed diagnostics of `error`; `decoding` states and
//! proves what a binary reader recovers from the produced bytes.

pub mod wasm;
pub mod error;
pub mod leb128;
pub mod codegen;
pub mod type_checker;
pub mod validate;
pub mod binary_builder;
pub mod decoding;
