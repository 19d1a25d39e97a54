//! The type checker: for an instruction node compiled under a typing
//! context, derives the ordered list of value types the node yields, or
//! fails with a typed error. The derivation is stated by [`spec_get_type`];
//! [`get_type`] is proved to return exactly that outcome.

use vstd::prelude::*;
use crate::wasm::{
    WasmValueType, WasmFnType, WasmInstr, WasmImportDesc, WasmModule, Location,
    binary_op_result_type, binary_op_result, load_kind_value_type, load_value_type, instr_size,
    instr_seq_size, lemma_instr_seq_size_element,
};
use crate::error::{CompileError, TypeErrorKind, InternalErrorKind};

verus! {

/// The typing context for one function body: the enclosing module's
/// finalized tables, the function's own signature, and the ordered types
/// of its non-parameter locals.
pub struct FnContext {
    pub module: WasmModule,
    pub fn_type: WasmFnType,
    pub non_arg_locals: Vec<WasmValueType>,
}

/// What type derivation yields for one node: an ordered type list, or one
/// of the typed failures, each carrying the offending node's location.
pub enum TypeOutcome {
    Yields(Seq<WasmValueType>),
    ExcessValuesInLoop { loc: Location },
    CallMismatch {
        fn_index: u32,
        expected: Seq<WasmValueType>,
        actual: Seq<WasmValueType>,
        loc: Location,
    },
    GlobalIndexOutOfRange { global_index: u32, loc: Location },
    LocalIndexOutOfRange { local_index: u32, loc: Location },
    FnIndexOutOfRange { fn_index: u32, loc: Location },
    TypeIndexOutOfRange { type_index: u32, loc: Location },
}

/// Keeps a failure, and turns a successful operand derivation into the
/// empty type list: the outcome of the structural no-ops.
pub open spec fn and_then_empty(o: TypeOutcome) -> TypeOutcome {
    match o {
        TypeOutcome::Yields(_) => TypeOutcome::Yields(Seq::empty()),
        _ => o,
    }
}

/// Checks a resolved callee signature against the argument types: the
/// inputs must match exactly, by count and position; on success the callee
/// outputs are yielded.
pub open spec fn spec_check_call_with(
    ctx: FnContext,
    fn_index: u32,
    type_index: u32,
    actual: Seq<WasmValueType>,
    loc: Location,
) -> TypeOutcome {
    if (type_index as int) < ctx.module.types@.len() {
        let ft = ctx.module.types@[type_index as int];
        if ft.inputs@ == actual {
            TypeOutcome::Yields(ft.outputs@)
        } else {
            TypeOutcome::CallMismatch { fn_index, expected: ft.inputs@, actual, loc }
        }
    } else {
        TypeOutcome::TypeIndexOutOfRange { type_index, loc }
    }
}

/// Resolves a callee: imported callees are typed by their declared type
/// index; locally defined callees by the type index registered in the
/// module's function table at their local slot.
pub open spec fn spec_check_call(
    ctx: FnContext,
    fn_index: u32,
    actual: Seq<WasmValueType>,
    loc: Location,
) -> TypeOutcome {
    let nimports = ctx.module.imports@.len();
    if (fn_index as int) < nimports {
        match ctx.module.imports@[fn_index as int].item_desc {
            WasmImportDesc::Func { type_index } => spec_check_call_with(
                ctx,
                fn_index,
                type_index,
                actual,
                loc,
            ),
        }
    } else if fn_index - nimports < ctx.module.functions@.len() {
        spec_check_call_with(
            ctx,
            fn_index,
            ctx.module.functions@[fn_index - nimports],
            actual,
            loc,
        )
    } else {
        TypeOutcome::FnIndexOutOfRange { fn_index, loc }
    }
}

/// The type list one instruction node yields under the context, or the
/// first failure found in its operands.
pub open spec fn spec_get_type(ctx: FnContext, instr: WasmInstr) -> TypeOutcome
    decreases instr, 0int,
{
    match instr {
        WasmInstr::NoInstr => TypeOutcome::Yields(Seq::empty()),
        WasmInstr::Unreachable => TypeOutcome::Yields(Seq::empty()),
        WasmInstr::LoopBreak => TypeOutcome::Yields(Seq::empty()),
        WasmInstr::LoopContinue => TypeOutcome::Yields(Seq::empty()),
        WasmInstr::MemorySize => TypeOutcome::Yields(seq![WasmValueType::I32]),
        WasmInstr::I32Const { .. } => TypeOutcome::Yields(seq![WasmValueType::I32]),
        WasmInstr::I32ConstLazy { .. } => TypeOutcome::Yields(seq![WasmValueType::I32]),
        WasmInstr::I64Const { .. } => TypeOutcome::Yields(seq![WasmValueType::I64]),
        WasmInstr::Drop { value } => and_then_empty(spec_get_type(ctx, *value)),
        WasmInstr::Return { value } => and_then_empty(spec_get_type(ctx, *value)),
        WasmInstr::LocalSet { value, .. } => and_then_empty(spec_get_type(ctx, *value)),
        WasmInstr::GlobalSet { value, .. } => and_then_empty(spec_get_type(ctx, *value)),
        WasmInstr::Store { address_instr, value_instr, .. } => match spec_get_type(
            ctx,
            *value_instr,
        ) {
            TypeOutcome::Yields(_) => and_then_empty(spec_get_type(ctx, *address_instr)),
            o => o,
        },
        WasmInstr::MemoryGrow { size_instr } => match spec_get_type(ctx, *size_instr) {
            TypeOutcome::Yields(_) => TypeOutcome::Yields(seq![WasmValueType::I32]),
            o => o,
        },
        WasmInstr::BinaryOp { kind, lhs, rhs } => match spec_get_type(ctx, *rhs) {
            TypeOutcome::Yields(_) => match spec_get_type(ctx, *lhs) {
                TypeOutcome::Yields(_) => TypeOutcome::Yields(seq![binary_op_result_type(kind)]),
                o => o,
            },
            o => o,
        },
        WasmInstr::Load { kind, address_instr, .. } => match spec_get_type(ctx, *address_instr) {
            TypeOutcome::Yields(_) => TypeOutcome::Yields(seq![load_kind_value_type(kind)]),
            o => o,
        },
        WasmInstr::If { block_type, cond, then_branch, else_branch } => match spec_get_type(
            ctx,
            *cond,
        ) {
            TypeOutcome::Yields(_) => match spec_get_type(ctx, *then_branch) {
                TypeOutcome::Yields(_) => match spec_get_type(ctx, *else_branch) {
                    TypeOutcome::Yields(_) => TypeOutcome::Yields(seq![block_type]),
                    o => o,
                },
                o => o,
            },
            o => o,
        },
        WasmInstr::IfSingleBranch { cond, then_branch } => match spec_get_type(ctx, *cond) {
            TypeOutcome::Yields(_) => and_then_empty(spec_get_type(ctx, *then_branch)),
            o => o,
        },
        WasmInstr::MultiValueEmit { values } => spec_get_types(ctx, values@, values@.len() as int),
        WasmInstr::Loop { instrs, loc } => match spec_get_types(
            ctx,
            instrs@,
            instrs@.len() as int,
        ) {
            TypeOutcome::Yields(ts) => if ts.len() > 0 {
                TypeOutcome::ExcessValuesInLoop { loc }
            } else {
                TypeOutcome::Yields(Seq::empty())
            },
            o => o,
        },
        WasmInstr::GlobalGet { global_index, loc } => if (global_index as int)
            < ctx.module.globals@.len() {
            TypeOutcome::Yields(seq![ctx.module.globals@[global_index as int].kind.value_type])
        } else {
            TypeOutcome::GlobalIndexOutOfRange { global_index, loc }
        },
        WasmInstr::LocalGet { local_index, loc } => if (local_index as int)
            < ctx.fn_type.inputs@.len() {
            TypeOutcome::Yields(seq![ctx.fn_type.inputs@[local_index as int]])
        } else if local_index - ctx.fn_type.inputs@.len() < ctx.non_arg_locals@.len() {
            TypeOutcome::Yields(
                seq![ctx.non_arg_locals@[local_index - ctx.fn_type.inputs@.len()]],
            )
        } else {
            TypeOutcome::LocalIndexOutOfRange { local_index, loc }
        },
        WasmInstr::Call { fn_index, args, loc } => match spec_get_types(
            ctx,
            args@,
            args@.len() as int,
        ) {
            TypeOutcome::Yields(actual) => spec_check_call(ctx, fn_index, actual, loc),
            o => o,
        },
    }
}

/// The concatenated type lists of the first `n` instructions, or the first
/// failure among them.
pub open spec fn spec_get_types(ctx: FnContext, s: Seq<WasmInstr>, n: int) -> TypeOutcome
    recommends
        n <= s.len(),
    decreases s, n,
{
    if n <= 0 || s.len() < n {
        TypeOutcome::Yields(Seq::empty())
    } else {
        match spec_get_types(ctx, s, n - 1) {
            TypeOutcome::Yields(prefix) => match spec_get_type(ctx, s[n - 1]) {
                TypeOutcome::Yields(ts) => TypeOutcome::Yields(prefix + ts),
                o => o,
            },
            o => o,
        }
    }
}

/// A failure among the first `m` instructions is the outcome for every
/// longer prefix as well.
proof fn lemma_get_types_prefix_error(ctx: FnContext, s: Seq<WasmInstr>, m: int, n: int)
    requires
        0 <= m <= n <= s.len(),
        !(spec_get_types(ctx, s, m) is Yields),
    ensures
        spec_get_types(ctx, s, n) == spec_get_types(ctx, s, m),
    decreases n,
{
    if m < n {
        lemma_get_types_prefix_error(ctx, s, m, n - 1);
    }
}

/// Relates the checker's executable result to the specified outcome: a
/// yielded type list becomes `Ok`, each failure becomes the corresponding
/// error value, location and payload included.
pub open spec fn type_result_matches(
    r: Result<Vec<WasmValueType>, CompileError>,
    o: TypeOutcome,
) -> bool {
    match o {
        TypeOutcome::Yields(ts) => match r {
            Ok(v) => v@ == ts,
            Err(_) => false,
        },
        TypeOutcome::ExcessValuesInLoop { loc } => match r {
            Err(
                CompileError::Type { kind: TypeErrorKind::ExcessValuesInLoop, loc: l },
            ) => l == loc,
            _ => false,
        },
        TypeOutcome::CallMismatch { fn_index, expected, actual, loc } => match r {
            Err(
                CompileError::Type {
                    kind: TypeErrorKind::CallMismatch { fn_index: fi, expected: ex, actual: ac },
                    loc: l,
                },
            ) => fi == fn_index && ex@ == expected && ac@ == actual && l == loc,
            _ => false,
        },
        TypeOutcome::GlobalIndexOutOfRange { global_index, loc } => match r {
            Err(
                CompileError::Internal {
                    kind: InternalErrorKind::GlobalIndexOutOfRange { global_index: g },
                    loc: l,
                },
            ) => g == global_index && l == loc,
            _ => false,
        },
        TypeOutcome::LocalIndexOutOfRange { local_index, loc } => match r {
            Err(
                CompileError::Internal {
                    kind: InternalErrorKind::LocalIndexOutOfRange { local_index: li },
                    loc: l,
                },
            ) => li == local_index && l == loc,
            _ => false,
        },
        TypeOutcome::FnIndexOutOfRange { fn_index, loc } => match r {
            Err(
                CompileError::Internal {
                    kind: InternalErrorKind::FnIndexOutOfRange { fn_index: fi },
                    loc: l,
                },
            ) => fi == fn_index && l == loc,
            _ => false,
        },
        TypeOutcome::TypeIndexOutOfRange { type_index, loc } => match r {
            Err(
                CompileError::Internal {
                    kind: InternalErrorKind::TypeIndexOutOfRange { type_index: ti },
                    loc: l,
                },
            ) => ti == type_index && l == loc,
            _ => false,
        },
    }
}

/// A one-element type list.
fn singleton(t: WasmValueType) -> (r: Vec<WasmValueType>)
    ensures
        r@ == seq![t],
{
    let mut r: Vec<WasmValueType> = Vec::new();
    r.push(t);
    proof {
        assert(r@ =~= seq![t]);
    }
    r
}

/// Copies a type list.
fn copy_value_types(v: &Vec<WasmValueType>) -> (r: Vec<WasmValueType>)
    ensures
        r@ == v@,
{
    let mut r: Vec<WasmValueType> = Vec::new();
    let mut i: usize = 0;
    while i < v.len()
        invariant
            i <= v@.len(),
            r@ == v@.take(i as int),
        decreases v@.len() - i,
    {
        r.push(v[i]);
        proof {
            assert(v@.take(i + 1 as int) =~= v@.take(i as int) + seq![v@[i as int]]);
        }
        i += 1;
    }
    proof {
        assert(v@.take(v@.len() as int) =~= v@);
    }
    r
}

/// Compares two type lists by count and position.
fn value_types_eq(a: &Vec<WasmValueType>, b: &Vec<WasmValueType>) -> (r: bool)
    ensures
        r == (a@ == b@),
{
    if a.len() != b.len() {
        return false;
    }
    let mut i: usize = 0;
    while i < a.len()
        invariant
            i <= a@.len(),
            a@.len() == b@.len(),
            forall|j: int| 0 <= j < i ==> a@[j] == b@[j],
        decreases a@.len() - i,
    {
        if a[i] != b[i] {
            return false;
        }
        i += 1;
    }
    proof {
        assert(a@ =~= b@);
    }
    true
}

/// Derives the ordered list of value types `instr` yields under `ctx`, or
/// returns the first type error or internal-consistency error found, as
/// [`spec_get_type`] specifies.
pub fn get_type(ctx: &FnContext, instr: &WasmInstr) -> (r: Result<Vec<WasmValueType>, CompileError>)
    ensures
        type_result_matches(r, spec_get_type(*ctx, *instr)),
    decreases instr_size(*instr),
{
    match instr {
        WasmInstr::NoInstr => Ok(Vec::new()),
        WasmInstr::Unreachable => Ok(Vec::new()),
        WasmInstr::LoopBreak => Ok(Vec::new()),
        WasmInstr::LoopContinue => Ok(Vec::new()),
        WasmInstr::MemorySize => Ok(singleton(WasmValueType::I32)),
        WasmInstr::I32Const { .. } => Ok(singleton(WasmValueType::I32)),
        WasmInstr::I32ConstLazy { .. } => Ok(singleton(WasmValueType::I32)),
        WasmInstr::I64Const { .. } => Ok(singleton(WasmValueType::I64)),
        WasmInstr::Drop { value } => match get_type(ctx, &**value) {
            Ok(_) => Ok(Vec::new()),
            Err(e) => Err(e),
        },
        WasmInstr::Return { value } => match get_type(ctx, &**value) {
            Ok(_) => Ok(Vec::new()),
            Err(e) => Err(e),
        },
        WasmInstr::LocalSet { value, .. } => match get_type(ctx, &**value) {
            Ok(_) => Ok(Vec::new()),
            Err(e) => Err(e),
        },
        WasmInstr::GlobalSet { value, .. } => match get_type(ctx, &**value) {
            Ok(_) => Ok(Vec::new()),
            Err(e) => Err(e),
        },
        WasmInstr::Store { address_instr, value_instr, .. } => {
            match get_type(ctx, &**value_instr) {
                Ok(_) => {},
                Err(e) => {
                    return Err(e);
                },
            }
            match get_type(ctx, &**address_instr) {
                Ok(_) => Ok(Vec::new()),
                Err(e) => Err(e),
            }
        },
        WasmInstr::MemoryGrow { size_instr } => match get_type(ctx, &**size_instr) {
            Ok(_) => Ok(singleton(WasmValueType::I32)),
            Err(e) => Err(e),
        },
        WasmInstr::BinaryOp { kind, lhs, rhs } => {
            match get_type(ctx, &**rhs) {
                Ok(_) => {},
                Err(e) => {
                    return Err(e);
                },
            }
            match get_type(ctx, &**lhs) {
                Ok(_) => Ok(singleton(binary_op_result(*kind))),
                Err(e) => Err(e),
            }
        },
        WasmInstr::Load { kind, address_instr, .. } => match get_type(ctx, &**address_instr) {
            Ok(_) => Ok(singleton(load_value_type(*kind))),
            Err(e) => Err(e),
        },
        WasmInstr::If { block_type, cond, then_branch, else_branch } => {
            match get_type(ctx, &**cond) {
                Ok(_) => {},
                Err(e) => {
                    return Err(e);
                },
            }
            match get_type(ctx, &**then_branch) {
                Ok(_) => {},
                Err(e) => {
                    return Err(e);
                },
            }
            match get_type(ctx, &**else_branch) {
                Ok(_) => Ok(singleton(*block_type)),
                Err(e) => Err(e),
            }
        },
        WasmInstr::IfSingleBranch { cond, then_branch } => {
            match get_type(ctx, &**cond) {
                Ok(_) => {},
                Err(e) => {
                    return Err(e);
                },
            }
            match get_type(ctx, &**then_branch) {
                Ok(_) => Ok(Vec::new()),
                Err(e) => Err(e),
            }
        },
        WasmInstr::MultiValueEmit { values } => get_types(ctx, values),
        WasmInstr::Loop { instrs, loc } => {
            let ts = match get_types(ctx, instrs) {
                Ok(ts) => ts,
                Err(e) => {
                    return Err(e);
                },
            };
            if ts.len() > 0 {
                return Err(
                    CompileError::Type { kind: TypeErrorKind::ExcessValuesInLoop, loc: *loc },
                );
            }
            Ok(Vec::new())
        },
        WasmInstr::GlobalGet { global_index, loc } => {
            if (*global_index as usize) < ctx.module.globals.len() {
                Ok(singleton(ctx.module.globals[*global_index as usize].kind.value_type))
            } else {
                Err(
                    CompileError::Internal {
                        kind: InternalErrorKind::GlobalIndexOutOfRange {
                            global_index: *global_index,
                        },
                        loc: *loc,
                    },
                )
            }
        },
        WasmInstr::LocalGet { local_index, loc } => {
            let li = *local_index as usize;
            if li < ctx.fn_type.inputs.len() {
                Ok(singleton(ctx.fn_type.inputs[li]))
            } else if li - ctx.fn_type.inputs.len() < ctx.non_arg_locals.len() {
                Ok(singleton(ctx.non_arg_locals[li - ctx.fn_type.inputs.len()]))
            } else {
                Err(
                    CompileError::Internal {
                        kind: InternalErrorKind::LocalIndexOutOfRange {
                            local_index: *local_index,
                        },
                        loc: *loc,
                    },
                )
            }
        },
        WasmInstr::Call { fn_index, args, loc } => {
            let actual = match get_types(ctx, args) {
                Ok(ts) => ts,
                Err(e) => {
                    return Err(e);
                },
            };
            let nimports = ctx.module.imports.len();
            let type_index: u32;
            if (*fn_index as usize) < nimports {
                type_index = match ctx.module.imports[*fn_index as usize].item_desc {
                    WasmImportDesc::Func { type_index: ti } => ti,
                };
            } else {
                let slot = *fn_index as usize - nimports;
                if slot >= ctx.module.functions.len() {
                    return Err(
                        CompileError::Internal {
                            kind: InternalErrorKind::FnIndexOutOfRange { fn_index: *fn_index },
                            loc: *loc,
                        },
                    );
                }
                type_index = ctx.module.functions[slot];
            }
            if (type_index as usize) >= ctx.module.types.len() {
                return Err(
                    CompileError::Internal {
                        kind: InternalErrorKind::TypeIndexOutOfRange { type_index },
                        loc: *loc,
                    },
                );
            }
            let fn_type = &ctx.module.types[type_index as usize];
            if !value_types_eq(&fn_type.inputs, &actual) {
                return Err(
                    CompileError::Type {
                        kind: TypeErrorKind::CallMismatch {
                            fn_index: *fn_index,
                            expected: copy_value_types(&fn_type.inputs),
                            actual,
                        },
                        loc: *loc,
                    },
                );
            }
            Ok(copy_value_types(&fn_type.outputs))
        },
    }
}

/// Derives the concatenated type lists of an instruction sequence, or the
/// first failure among them.
fn get_types(ctx: &FnContext, instrs: &Vec<WasmInstr>) -> (r: Result<
    Vec<WasmValueType>,
    CompileError,
>)
    ensures
        type_result_matches(r, spec_get_types(*ctx, instrs@, instrs@.len() as int)),
    decreases instr_seq_size(instrs@, instrs@.len() as int),
{
    let mut types: Vec<WasmValueType> = Vec::new();
    let mut i: usize = 0;
    while i < instrs.len()
        invariant
            i <= instrs@.len(),
            spec_get_types(*ctx, instrs@, i as int) == TypeOutcome::Yields(types@),
        decreases instrs@.len() - i,
    {
        proof {
            lemma_instr_seq_size_element(instrs@, instrs@.len() as int, i as int);
        }
        match get_type(ctx, &instrs[i]) {
            Ok(mut ts) => {
                types.append(&mut ts);
            },
            Err(e) => {
                proof {
                    lemma_get_types_prefix_error(
                        *ctx,
                        instrs@,
                        i + 1 as int,
                        instrs@.len() as int,
                    );
                }
                return Err(e);
            },
        }
        i += 1;
    }
    Ok(types)
}

} // verus!
