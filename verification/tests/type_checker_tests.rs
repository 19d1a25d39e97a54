use wasm_emit::error::{CompileError, InternalErrorKind, TypeErrorKind};
use wasm_emit::type_checker::{get_type, FnContext};
use wasm_emit::wasm::{
    Location, WasmFnType, WasmGlobal, WasmGlobalKind, WasmExpr, WasmImport, WasmImportDesc,
    WasmInstr, WasmModule, WasmValueType,
};

fn loc(offset: usize, length: usize) -> Location {
    Location { offset, length }
}

fn empty_module() -> WasmModule {
    WasmModule {
        types: vec![],
        imports: vec![],
        functions: vec![],
        memories: vec![],
        globals: vec![],
        exports: vec![],
        codes: vec![],
        datas: vec![],
    }
}

fn context_with(module: WasmModule, inputs: Vec<WasmValueType>, locals: Vec<WasmValueType>) -> FnContext {
    FnContext {
        module,
        fn_type: WasmFnType { inputs, outputs: vec![] },
        non_arg_locals: locals,
    }
}

#[test]
fn call_with_wrong_arity_fails() {
    let mut module = empty_module();
    module.types.push(WasmFnType { inputs: vec![WasmValueType::I32], outputs: vec![] });
    module.functions.push(0);
    let ctx = context_with(module, vec![], vec![]);
    let call = WasmInstr::Call {
        fn_index: 0,
        args: vec![
            WasmInstr::I32Const { value: 1 },
            WasmInstr::I32Const { value: 2 },
        ],
        loc: loc(7, 4),
    };
    let result = get_type(&ctx, &call);
    match result {
        Err(CompileError::Type {
            kind: TypeErrorKind::CallMismatch { fn_index, expected, actual },
            loc: l,
        }) => {
            assert_eq!(fn_index, 0);
            assert_eq!(expected, vec![WasmValueType::I32]);
            assert_eq!(actual, vec![WasmValueType::I32, WasmValueType::I32]);
            assert_eq!(l, loc(7, 4));
        },
        _ => panic!("expected a call mismatch"),
    }
}

#[test]
fn loop_with_excess_values_fails() {
    let ctx = context_with(empty_module(), vec![], vec![]);
    let looped = WasmInstr::Loop {
        instrs: vec![WasmInstr::I32Const { value: 1 }],
        loc: loc(3, 9),
    };
    let result = get_type(&ctx, &looped);
    match result {
        Err(CompileError::Type { kind: TypeErrorKind::ExcessValuesInLoop, loc: l }) => {
            assert_eq!(l, loc(3, 9));
        },
        _ => panic!("expected excess values in loop"),
    }
    let err = get_type(&ctx, &looped).unwrap_err();
    assert!(err.is_type_error());
    assert_eq!(err.message(), "TypeError: excess values in loop");
}

#[test]
fn empty_loop_checks() {
    let ctx = context_with(empty_module(), vec![], vec![]);
    let looped = WasmInstr::Loop {
        instrs: vec![WasmInstr::Drop { value: Box::new(WasmInstr::I32Const { value: 1 }) }],
        loc: loc(0, 0),
    };
    assert_eq!(get_type(&ctx, &looped).unwrap(), vec![]);
}

#[test]
fn if_with_value_branches_yields_block_type() {
    let ctx = context_with(empty_module(), vec![], vec![]);
    let cond = WasmInstr::If {
        block_type: WasmValueType::I32,
        cond: Box::new(WasmInstr::I32Const { value: 1 }),
        then_branch: Box::new(WasmInstr::I32Const { value: 2 }),
        else_branch: Box::new(WasmInstr::I32Const { value: 3 }),
    };
    assert_eq!(get_type(&ctx, &cond).unwrap(), vec![WasmValueType::I32]);
}

#[test]
fn local_get_resolves_first_declared_local() {
    // One i32 parameter, then one declared i64 local: index 1 must resolve
    // to the declared local's type, not a parameter type.
    let ctx = context_with(
        empty_module(),
        vec![WasmValueType::I32],
        vec![WasmValueType::I64],
    );
    let get_param = WasmInstr::LocalGet { local_index: 0, loc: loc(0, 0) };
    assert_eq!(get_type(&ctx, &get_param).unwrap(), vec![WasmValueType::I32]);
    let get_local = WasmInstr::LocalGet { local_index: 1, loc: loc(0, 0) };
    assert_eq!(get_type(&ctx, &get_local).unwrap(), vec![WasmValueType::I64]);
}

#[test]
fn local_get_out_of_range_is_internal_error() {
    let ctx = context_with(empty_module(), vec![WasmValueType::I32], vec![]);
    let get_local = WasmInstr::LocalGet { local_index: 5, loc: loc(1, 1) };
    let err = get_type(&ctx, &get_local).unwrap_err();
    assert!(!err.is_type_error());
    assert!(matches!(
        err,
        CompileError::Internal {
            kind: InternalErrorKind::LocalIndexOutOfRange { local_index: 5 },
            ..
        }
    ));
}

#[test]
fn global_get_resolves_declared_type() {
    let mut module = empty_module();
    module.globals.push(WasmGlobal {
        kind: WasmGlobalKind { value_type: WasmValueType::I64, mutable: true },
        initial_value: WasmExpr { instrs: vec![WasmInstr::I64Const { value: 0 }] },
    });
    let ctx = context_with(module, vec![], vec![]);
    let get_global = WasmInstr::GlobalGet { global_index: 0, loc: loc(0, 0) };
    assert_eq!(get_type(&ctx, &get_global).unwrap(), vec![WasmValueType::I64]);
}

#[test]
fn global_get_out_of_range_is_internal_error() {
    let ctx = context_with(empty_module(), vec![], vec![]);
    let get_global = WasmInstr::GlobalGet { global_index: 3, loc: loc(2, 2) };
    let err = get_type(&ctx, &get_global).unwrap_err();
    assert!(matches!(
        err,
        CompileError::Internal {
            kind: InternalErrorKind::GlobalIndexOutOfRange { global_index: 3 },
            ..
        }
    ));
}

#[test]
fn call_to_undeclared_function_is_internal_error() {
    let mut module = empty_module();
    module.types.push(WasmFnType { inputs: vec![], outputs: vec![] });
    module.functions.push(0);
    let ctx = context_with(module, vec![], vec![]);
    let call = WasmInstr::Call { fn_index: 9, args: vec![], loc: loc(0, 0) };
    let err = get_type(&ctx, &call).unwrap_err();
    assert!(matches!(
        err,
        CompileError::Internal { kind: InternalErrorKind::FnIndexOutOfRange { fn_index: 9 }, .. }
    ));
}

#[test]
fn call_through_dangling_type_index_is_internal_error() {
    let mut module = empty_module();
    module.types.push(WasmFnType { inputs: vec![], outputs: vec![] });
    module.functions.push(7);
    let ctx = context_with(module, vec![], vec![]);
    let call = WasmInstr::Call { fn_index: 0, args: vec![], loc: loc(0, 0) };
    let err = get_type(&ctx, &call).unwrap_err();
    assert!(matches!(
        err,
        CompileError::Internal {
            kind: InternalErrorKind::TypeIndexOutOfRange { type_index: 7 },
            ..
        }
    ));
}

#[test]
fn imported_callee_typed_by_declared_index() {
    // One import occupying function index 0; the local function sits at
    // index 1. Calling either yields the declared output types.
    let mut module = empty_module();
    module.types.push(WasmFnType {
        inputs: vec![WasmValueType::I32],
        outputs: vec![WasmValueType::I64],
    });
    module.types.push(WasmFnType { inputs: vec![], outputs: vec![WasmValueType::I32] });
    module.imports.push(WasmImport {
        module_name: String::from("env"),
        item_name: String::from("host"),
        item_desc: WasmImportDesc::Func { type_index: 0 },
    });
    module.functions.push(1);
    let ctx = context_with(module, vec![], vec![]);
    let call_import = WasmInstr::Call {
        fn_index: 0,
        args: vec![WasmInstr::I32Const { value: 5 }],
        loc: loc(0, 0),
    };
    assert_eq!(get_type(&ctx, &call_import).unwrap(), vec![WasmValueType::I64]);
    let call_local = WasmInstr::Call { fn_index: 1, args: vec![], loc: loc(0, 0) };
    assert_eq!(get_type(&ctx, &call_local).unwrap(), vec![WasmValueType::I32]);
}

#[test]
fn structural_no_ops_yield_nothing_but_validate_operands() {
    let ctx = context_with(empty_module(), vec![], vec![]);
    let set = WasmInstr::LocalSet {
        local_index: 0,
        value: Box::new(WasmInstr::I32Const { value: 1 }),
    };
    assert_eq!(get_type(&ctx, &set).unwrap(), vec![]);
    // The operand is still validated: an error inside it surfaces.
    let bad = WasmInstr::LocalSet {
        local_index: 0,
        value: Box::new(WasmInstr::GlobalGet { global_index: 1, loc: loc(4, 1) }),
    };
    assert!(get_type(&ctx, &bad).is_err());
}

#[test]
fn multi_value_emit_concatenates_in_order() {
    let ctx = context_with(empty_module(), vec![], vec![]);
    let emit = WasmInstr::MultiValueEmit {
        values: vec![
            WasmInstr::I32Const { value: 1 },
            WasmInstr::I64Const { value: 2 },
            WasmInstr::I32Const { value: 3 },
        ],
    };
    assert_eq!(
        get_type(&ctx, &emit).unwrap(),
        vec![WasmValueType::I32, WasmValueType::I64, WasmValueType::I32]
    );
}

#[test]
fn answer_body_type_checks() {
    // The end-to-end module: one `() -> (i32)` signature and the body
    // `i32.const 42; return` check without error.
    let mut module = empty_module();
    module.types.push(WasmFnType { inputs: vec![], outputs: vec![WasmValueType::I32] });
    module.functions.push(0);
    let ctx = FnContext {
        module,
        fn_type: WasmFnType { inputs: vec![], outputs: vec![WasmValueType::I32] },
        non_arg_locals: vec![],
    };
    let body = WasmInstr::Return { value: Box::new(WasmInstr::I32Const { value: 42 }) };
    assert_eq!(get_type(&ctx, &body).unwrap(), vec![]);
}

#[test]
fn binary_op_yields_operator_result_type() {
    let ctx = context_with(empty_module(), vec![], vec![]);
    let op = WasmInstr::BinaryOp {
        kind: wasm_emit::wasm::WasmBinaryOpKind::I32Add,
        lhs: Box::new(WasmInstr::I32Const { value: 1 }),
        rhs: Box::new(WasmInstr::I32Const { value: 2 }),
    };
    assert_eq!(get_type(&ctx, &op).unwrap(), vec![WasmValueType::I32]);
}
