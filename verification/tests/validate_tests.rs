use wasm_emit::error::{CompileError, InternalErrorKind};
use wasm_emit::validate::validate_module;
use wasm_emit::wasm::{
    Location, WasmData, WasmExport, WasmExportType, WasmFnCode, WasmFnType, WasmExpr, WasmGlobal,
    WasmGlobalKind, WasmImport, WasmImportDesc, WasmInstr, WasmLazyI32, WasmModule,
    WasmValueType,
};

fn empty_module() -> WasmModule {
    WasmModule {
        types: vec![],
        imports: vec![],
        functions: vec![],
        memories: vec![],
        globals: vec![],
        exports: vec![],
        codes: vec![],
        datas: vec![],
    }
}

fn empty_body() -> WasmFnCode {
    WasmFnCode { locals: vec![], expr: WasmExpr { instrs: vec![] } }
}

#[test]
fn valid_module_is_accepted() {
    let mut module = empty_module();
    module.types.push(WasmFnType { inputs: vec![], outputs: vec![] });
    module.functions.push(0);
    module.codes.push(empty_body());
    module.exports.push(WasmExport {
        export_type: WasmExportType::Func,
        export_name: String::from("f"),
        exported_item_index: 0,
    });
    assert!(validate_module(&module).is_ok());
}

#[test]
fn export_of_undeclared_function_is_rejected() {
    // An export referencing function index 5 when only 2 functions are
    // declared: an internal-consistency failure, caught before encoding.
    let mut module = empty_module();
    module.types.push(WasmFnType { inputs: vec![], outputs: vec![] });
    module.functions.push(0);
    module.functions.push(0);
    module.codes.push(empty_body());
    module.codes.push(empty_body());
    module.exports.push(WasmExport {
        export_type: WasmExportType::Func,
        export_name: String::from("dangling"),
        exported_item_index: 5,
    });
    let err = validate_module(&module).unwrap_err();
    assert!(!err.is_type_error());
    assert!(matches!(
        err,
        CompileError::Internal {
            kind: InternalErrorKind::ExportIndexOutOfRange { export_index: 0 },
            ..
        }
    ));
}

#[test]
fn export_of_undeclared_memory_is_rejected() {
    let mut module = empty_module();
    module.exports.push(WasmExport {
        export_type: WasmExportType::Mem,
        export_name: String::from("mem"),
        exported_item_index: 0,
    });
    assert!(validate_module(&module).is_err());
}

#[test]
fn function_with_dangling_type_index_is_rejected() {
    let mut module = empty_module();
    module.functions.push(3);
    module.codes.push(empty_body());
    let err = validate_module(&module).unwrap_err();
    assert!(matches!(
        err,
        CompileError::Internal {
            kind: InternalErrorKind::FunctionTypeIndexOutOfRange { function_index: 0 },
            ..
        }
    ));
}

#[test]
fn import_with_dangling_type_index_is_rejected() {
    let mut module = empty_module();
    module.imports.push(WasmImport {
        module_name: String::from("env"),
        item_name: String::from("host"),
        item_desc: WasmImportDesc::Func { type_index: 1 },
    });
    let err = validate_module(&module).unwrap_err();
    assert!(matches!(
        err,
        CompileError::Internal {
            kind: InternalErrorKind::ImportTypeIndexOutOfRange { import_index: 0 },
            ..
        }
    ));
}

#[test]
fn code_count_mismatch_is_rejected() {
    let mut module = empty_module();
    module.types.push(WasmFnType { inputs: vec![], outputs: vec![] });
    module.functions.push(0);
    let err = validate_module(&module).unwrap_err();
    assert!(matches!(
        err,
        CompileError::Internal { kind: InternalErrorKind::CodeCountMismatch, .. }
    ));
}

#[test]
fn non_constant_global_initializer_is_rejected() {
    let mut module = empty_module();
    module.globals.push(WasmGlobal {
        kind: WasmGlobalKind { value_type: WasmValueType::I32, mutable: false },
        initial_value: WasmExpr {
            instrs: vec![WasmInstr::LocalGet { local_index: 0, loc: Location { offset: 0, length: 0 } }],
        },
    });
    let err = validate_module(&module).unwrap_err();
    assert!(matches!(
        err,
        CompileError::Internal {
            kind: InternalErrorKind::InvalidGlobalInitializer { global_index: 0 },
            ..
        }
    ));
}

#[test]
fn unresolved_lazy_constant_in_code_is_rejected() {
    let mut module = empty_module();
    module.types.push(WasmFnType { inputs: vec![], outputs: vec![] });
    module.functions.push(0);
    module.codes.push(WasmFnCode {
        locals: vec![],
        expr: WasmExpr {
            instrs: vec![WasmInstr::Drop {
                value: Box::new(WasmInstr::I32ConstLazy { value: WasmLazyI32::Unresolved }),
            }],
        },
    });
    let err = validate_module(&module).unwrap_err();
    assert!(matches!(
        err,
        CompileError::Internal {
            kind: InternalErrorKind::UnresolvedCode { function_index: 0 },
            ..
        }
    ));
}

#[test]
fn unresolved_data_offset_is_rejected() {
    let mut module = empty_module();
    module.datas.push(WasmData::Active {
        offset: WasmExpr {
            instrs: vec![WasmInstr::I32ConstLazy { value: WasmLazyI32::Unresolved }],
        },
        bytes: vec![1, 2, 3],
    });
    let err = validate_module(&module).unwrap_err();
    assert!(matches!(
        err,
        CompileError::Internal {
            kind: InternalErrorKind::InvalidDataSegment { data_index: 0 },
            ..
        }
    ));
}

#[test]
fn resolved_lazy_constant_is_accepted() {
    let mut module = empty_module();
    module.datas.push(WasmData::Active {
        offset: WasmExpr {
            instrs: vec![WasmInstr::I32ConstLazy { value: WasmLazyI32::Resolved { value: 16 } }],
        },
        bytes: vec![1, 2, 3],
    });
    assert!(validate_module(&module).is_ok());
}

#[test]
fn internal_errors_have_distinct_message_shape() {
    let mut module = empty_module();
    module.functions.push(3);
    module.codes.push(empty_body());
    let err = validate_module(&module).unwrap_err();
    assert_eq!(err.message(), "internal consistency error: invalid index");
}
