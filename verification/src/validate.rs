//! Module validation: an executable check of the invariant [`module_wf`]
//! that the encoder assumes. A module that violates it — an export
//! referencing a function that is not declared, an unresolved lazy
//! constant — is rejected here, before encoding, as an
//! internal-consistency failure.

use vstd::prelude::*;
use crate::wasm::{
    WasmExportType, WasmInstr, WasmExpr, WasmData, WasmLazyI32, WasmModule, Location,
    instr_resolved, expr_resolved, is_const_instr, is_const_expr, import_wf, export_wf, global_wf,
    data_wf, module_wf, instr_size, instr_seq_size, lemma_instr_seq_size_element,
};
use crate::error::{CompileError, InternalErrorKind};

verus! {

/// Holds when the returned error names a real violation of the module
/// invariant, by position.
pub open spec fn validate_error_describes(e: CompileError, m: WasmModule) -> bool {
    match e {
        CompileError::Internal { kind, .. } => match kind {
            InternalErrorKind::FunctionTypeIndexOutOfRange { function_index } => function_index
                < m.functions@.len() && m.functions@[function_index as int] >= m.types@.len(),
            InternalErrorKind::ImportTypeIndexOutOfRange { import_index } => import_index
                < m.imports@.len() && !import_wf(m.imports@[import_index as int], m),
            InternalErrorKind::ExportIndexOutOfRange { export_index } => export_index
                < m.exports@.len() && !export_wf(m.exports@[export_index as int], m),
            InternalErrorKind::CodeCountMismatch => m.codes@.len() != m.functions@.len(),
            InternalErrorKind::InvalidGlobalInitializer { global_index } => global_index
                < m.globals@.len() && !global_wf(m.globals@[global_index as int]),
            InternalErrorKind::UnresolvedCode { function_index } => function_index
                < m.codes@.len() && !expr_resolved(m.codes@[function_index as int].expr),
            InternalErrorKind::InvalidDataSegment { data_index } => data_index < m.datas@.len()
                && !data_wf(m.datas@[data_index as int]),
            _ => false,
        },
        CompileError::Type { .. } => false,
    }
}

/// Checks that every lazy constant below this node is resolved.
fn check_instr_resolved(instr: &WasmInstr) -> (r: bool)
    ensures
        r == instr_resolved(*instr),
    decreases instr_size(*instr),
{
    match instr {
        WasmInstr::NoInstr => true,
        WasmInstr::Unreachable => true,
        WasmInstr::Drop { value } => check_instr_resolved(&**value),
        WasmInstr::I32Const { .. } => true,
        WasmInstr::I32ConstLazy { value } => match value {
            WasmLazyI32::Resolved { .. } => true,
            WasmLazyI32::Unresolved => false,
        },
        WasmInstr::I64Const { .. } => true,
        WasmInstr::BinaryOp { lhs, rhs, .. } => check_instr_resolved(&**lhs)
            && check_instr_resolved(&**rhs),
        WasmInstr::Load { address_instr, .. } => check_instr_resolved(&**address_instr),
        WasmInstr::Store { address_instr, value_instr, .. } => check_instr_resolved(
            &**address_instr,
        ) && check_instr_resolved(&**value_instr),
        WasmInstr::MemorySize => true,
        WasmInstr::MemoryGrow { size_instr } => check_instr_resolved(&**size_instr),
        WasmInstr::LocalGet { .. } => true,
        WasmInstr::LocalSet { value, .. } => check_instr_resolved(&**value),
        WasmInstr::GlobalGet { .. } => true,
        WasmInstr::GlobalSet { value, .. } => check_instr_resolved(&**value),
        WasmInstr::Return { value } => check_instr_resolved(&**value),
        WasmInstr::Call { args, .. } => {
            let mut i: usize = 0;
            while i < args.len()
                invariant
                    i <= args@.len(),
                    forall|j: int| 0 <= j < i ==> instr_resolved(#[trigger] args@[j]),
                    instr_seq_size(args@, args@.len() as int) < instr_size(*instr),
                    instr_resolved(*instr) == (forall|j: int|
                        0 <= j < args@.len() ==> instr_resolved(#[trigger] args@[j])),
                decreases args@.len() - i,
            {
                proof {
                    lemma_instr_seq_size_element(args@, args@.len() as int, i as int);
                }
                if !check_instr_resolved(&args[i]) {
                    return false;
                }
                i += 1;
            }
            true
        },
        WasmInstr::If { cond, then_branch, else_branch, .. } => check_instr_resolved(&**cond)
            && check_instr_resolved(&**then_branch) && check_instr_resolved(&**else_branch),
        WasmInstr::IfSingleBranch { cond, then_branch } => check_instr_resolved(&**cond)
            && check_instr_resolved(&**then_branch),
        WasmInstr::MultiValueEmit { values } => {
            let mut i: usize = 0;
            while i < values.len()
                invariant
                    i <= values@.len(),
                    forall|j: int| 0 <= j < i ==> instr_resolved(#[trigger] values@[j]),
                    instr_seq_size(values@, values@.len() as int) < instr_size(*instr),
                    instr_resolved(*instr) == (forall|j: int|
                        0 <= j < values@.len() ==> instr_resolved(#[trigger] values@[j])),
                decreases values@.len() - i,
            {
                proof {
                    lemma_instr_seq_size_element(values@, values@.len() as int, i as int);
                }
                if !check_instr_resolved(&values[i]) {
                    return false;
                }
                i += 1;
            }
            true
        },
        WasmInstr::Loop { instrs, .. } => {
            let mut i: usize = 0;
            while i < instrs.len()
                invariant
                    i <= instrs@.len(),
                    forall|j: int| 0 <= j < i ==> instr_resolved(#[trigger] instrs@[j]),
                    instr_seq_size(instrs@, instrs@.len() as int) < instr_size(*instr),
                    instr_resolved(*instr) == (forall|j: int|
                        0 <= j < instrs@.len() ==> instr_resolved(#[trigger] instrs@[j])),
                decreases instrs@.len() - i,
            {
                proof {
                    lemma_instr_seq_size_element(instrs@, instrs@.len() as int, i as int);
                }
                if !check_instr_resolved(&instrs[i]) {
                    return false;
                }
                i += 1;
            }
            true
        },
        WasmInstr::LoopBreak => true,
        WasmInstr::LoopContinue => true,
    }
}

/// Checks that every lazy constant in the sequence is resolved.
fn check_expr_resolved(e: &WasmExpr) -> (r: bool)
    ensures
        r == expr_resolved(*e),
{
    let mut i: usize = 0;
    while i < e.instrs.len()
        invariant
            i <= e.instrs@.len(),
            forall|j: int| 0 <= j < i ==> instr_resolved(#[trigger] e.instrs@[j]),
        decreases e.instrs@.len() - i,
    {
        if !check_instr_resolved(&e.instrs[i]) {
            return false;
        }
        i += 1;
    }
    true
}

/// Checks that every instruction of the expression produces a constant.
fn check_const_expr(e: &WasmExpr) -> (r: bool)
    ensures
        r == is_const_expr(*e),
{
    let mut i: usize = 0;
    while i < e.instrs.len()
        invariant
            i <= e.instrs@.len(),
            forall|j: int| 0 <= j < i ==> is_const_instr(#[trigger] e.instrs@[j]),
        decreases e.instrs@.len() - i,
    {
        let ok = match &e.instrs[i] {
            WasmInstr::I32Const { .. } => true,
            WasmInstr::I32ConstLazy { value } => match value {
                WasmLazyI32::Resolved { .. } => true,
                WasmLazyI32::Unresolved => false,
            },
            WasmInstr::I64Const { .. } => true,
            _ => false,
        };
        if !ok {
            return false;
        }
        i += 1;
    }
    true
}

/// Checks the module invariant the encoder assumes: index references
/// dereferenceable, function bodies matching the function table, constant
/// initializers constant, lazy constants resolved. Returns the first
/// violation found as an internal-consistency error — a bug in module
/// construction upstream, never a user mistake.
#[verifier::loop_isolation(false)]
pub fn validate_module(module: &WasmModule) -> (r: Result<(), CompileError>)
    ensures
        r is Ok <==> module_wf(*module),
        (match r {
            Ok(_) => true,
            Err(e) => validate_error_describes(e, *module),
        }),
{
    let zero_loc = Location { offset: 0, length: 0 };

    let mut i: usize = 0;
    while i < module.functions.len()
        invariant
            i <= module.functions@.len(),
            forall|j: int|
                0 <= j < i ==> (#[trigger] module.functions@[j]) < module.types@.len(),
        decreases module.functions@.len() - i,
    {
        if module.functions[i] as usize >= module.types.len() {
            return Err(
                CompileError::Internal {
                    kind: InternalErrorKind::FunctionTypeIndexOutOfRange { function_index: i },
                    loc: zero_loc,
                },
            );
        }
        i += 1;
    }

    let mut i: usize = 0;
    while i < module.imports.len()
        invariant
            i <= module.imports@.len(),
            forall|j: int| 0 <= j < i ==> import_wf(#[trigger] module.imports@[j], *module),
        decreases module.imports@.len() - i,
    {
        let ok = match module.imports[i].item_desc {
            crate::wasm::WasmImportDesc::Func { type_index } => (type_index as usize)
                < module.types.len(),
        };
        if !ok {
            return Err(
                CompileError::Internal {
                    kind: InternalErrorKind::ImportTypeIndexOutOfRange { import_index: i },
                    loc: zero_loc,
                },
            );
        }
        i += 1;
    }

    let mut i: usize = 0;
    while i < module.exports.len()
        invariant
            i <= module.exports@.len(),
            forall|j: int| 0 <= j < i ==> export_wf(#[trigger] module.exports@[j], *module),
        decreases module.exports@.len() - i,
    {
        let export = &module.exports[i];
        let idx = export.exported_item_index as usize;
        let ok = match export.export_type {
            WasmExportType::Func => idx < module.imports.len() || idx - module.imports.len()
                < module.functions.len(),
            WasmExportType::Mem => idx < module.memories.len(),
            WasmExportType::Global => idx < module.globals.len(),
        };
        if !ok {
            return Err(
                CompileError::Internal {
                    kind: InternalErrorKind::ExportIndexOutOfRange { export_index: i },
                    loc: zero_loc,
                },
            );
        }
        i += 1;
    }

    if module.codes.len() != module.functions.len() {
        return Err(
            CompileError::Internal { kind: InternalErrorKind::CodeCountMismatch, loc: zero_loc },
        );
    }

    let mut i: usize = 0;
    while i < module.globals.len()
        invariant
            i <= module.globals@.len(),
            forall|j: int| 0 <= j < i ==> global_wf(#[trigger] module.globals@[j]),
        decreases module.globals@.len() - i,
    {
        let global = &module.globals[i];
        if !check_const_expr(&global.initial_value) || !check_expr_resolved(
            &global.initial_value,
        ) {
            return Err(
                CompileError::Internal {
                    kind: InternalErrorKind::InvalidGlobalInitializer { global_index: i },
                    loc: zero_loc,
                },
            );
        }
        i += 1;
    }

    let mut i: usize = 0;
    while i < module.codes.len()
        invariant
            i <= module.codes@.len(),
            forall|j: int| 0 <= j < i ==> expr_resolved((#[trigger] module.codes@[j]).expr),
        decreases module.codes@.len() - i,
    {
        if !check_expr_resolved(&module.codes[i].expr) {
            return Err(
                CompileError::Internal {
                    kind: InternalErrorKind::UnresolvedCode { function_index: i },
                    loc: zero_loc,
                },
            );
        }
        i += 1;
    }

    let mut i: usize = 0;
    while i < module.datas.len()
        invariant
            i <= module.datas@.len(),
            forall|j: int| 0 <= j < i ==> data_wf(#[trigger] module.datas@[j]),
        decreases module.datas@.len() - i,
    {
        let ok = match &module.datas[i] {
            WasmData::Active { offset, .. } => {
                let c = check_const_expr(offset);
                c && check_expr_resolved(offset)
            },
        };
        if !ok {
            return Err(
                CompileError::Internal {
                    kind: InternalErrorKind::InvalidDataSegment { data_index: i },
                    loc: zero_loc,
                },
            );
        }
        i += 1;
    }

    Ok(())
}

} // verus!
