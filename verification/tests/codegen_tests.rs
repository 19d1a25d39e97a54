use wasm_emit::binary_builder::BinaryBuilder;
use wasm_emit::codegen::codegen;
use wasm_emit::validate::validate_module;
use wasm_emit::wasm::{
    WasmData, WasmExport, WasmExportType, WasmFnCode, WasmFnType, WasmExpr, WasmGlobal,
    WasmGlobalKind, WasmImport, WasmImportDesc, WasmInstr, WasmLazyI32, WasmMemory, WasmModule,
    WasmValueType,
};

fn empty_module() -> WasmModule {
    WasmModule {
        types: vec![],
        imports: vec![],
        functions: vec![],
        memories: vec![],
        globals: vec![],
        exports: vec![],
        codes: vec![],
        datas: vec![],
    }
}

/// A module with one `() -> (i32)` type, one body `i32.const 42; return`,
/// and one function export named "answer".
fn answer_module() -> WasmModule {
    let mut module = empty_module();
    module.types.push(WasmFnType { inputs: vec![], outputs: vec![WasmValueType::I32] });
    module.functions.push(0);
    module.exports.push(WasmExport {
        export_type: WasmExportType::Func,
        export_name: String::from("answer"),
        exported_item_index: 0,
    });
    module.codes.push(WasmFnCode {
        locals: vec![],
        expr: WasmExpr {
            instrs: vec![WasmInstr::Return {
                value: Box::new(WasmInstr::I32Const { value: 42 }),
            }],
        },
    });
    module
}

#[test]
fn empty_module_emits_all_sections_in_order() {
    let bin = codegen(&empty_module());
    let expected: Vec<u8> = vec![
        0x00, 0x61, 0x73, 0x6d, 0x01, 0x00, 0x00, 0x00, // magic + version
        0x01, 0x01, 0x00, // type section, empty
        0x02, 0x01, 0x00, // import section, empty
        0x03, 0x01, 0x00, // function section, empty
        0x05, 0x01, 0x00, // memory section, empty
        0x06, 0x01, 0x00, // global section, empty
        0x07, 0x01, 0x00, // export section, empty
        0x0a, 0x01, 0x00, // code section, empty
        0x0b, 0x01, 0x00, // data section, empty
    ];
    assert_eq!(bin, expected);
}

#[test]
fn answer_module_end_to_end() {
    let module = answer_module();
    assert!(validate_module(&module).is_ok());
    let bin = codegen(&module);
    let expected: Vec<u8> = vec![
        0x00, 0x61, 0x73, 0x6d, 0x01, 0x00, 0x00, 0x00, // magic + version
        0x01, 0x05, 0x01, 0x60, 0x00, 0x01, 0x7f, // types: 1 entry, () -> (i32)
        0x02, 0x01, 0x00, // imports: none
        0x03, 0x02, 0x01, 0x00, // functions: 1 entry, type index 0
        0x05, 0x01, 0x00, // memories: none
        0x06, 0x01, 0x00, // globals: none
        // exports: 1 entry, name length 6, "answer", kind 0x00, index 0
        0x07, 0x0a, 0x01, 0x06, 0x61, 0x6e, 0x73, 0x77, 0x65, 0x72, 0x00, 0x00,
        // codes: 1 body, 5 bytes: 0 locals, i32.const 42, return, end
        0x0a, 0x07, 0x01, 0x05, 0x00, 0x41, 0x2a, 0x0f, 0x0b,
        0x0b, 0x01, 0x00, // data: none
    ];
    assert_eq!(bin, expected);
}

#[test]
fn encoding_is_deterministic() {
    let module = answer_module();
    let first = codegen(&module);
    let second = codegen(&module);
    assert_eq!(first, second);
}

#[test]
fn binary_builder_matches_codegen() {
    let module = answer_module();
    let built = BinaryBuilder::new(&module).build();
    assert_eq!(built, codegen(&module));
}

#[test]
fn unsigned_leb128_immediates_encode_canonically() {
    let mut module = empty_module();
    module.memories.push(WasmMemory { min: 624_485, max: Some(624_485) });
    let bin = codegen(&module);
    let expected: Vec<u8> = vec![
        0x00, 0x61, 0x73, 0x6d, 0x01, 0x00, 0x00, 0x00,
        0x01, 0x01, 0x00,
        0x02, 0x01, 0x00,
        0x03, 0x01, 0x00,
        // memory: 1 entry, max present, min 624485, max 624485
        0x05, 0x08, 0x01, 0x01, 0xe5, 0x8e, 0x26, 0xe5, 0x8e, 0x26,
        0x06, 0x01, 0x00,
        0x07, 0x01, 0x00,
        0x0a, 0x01, 0x00,
        0x0b, 0x01, 0x00,
    ];
    assert_eq!(bin, expected);
    // The reader of the limits recovers the encoded page counts.
    let (min, n) = mini_leb128::read_u32(&bin[21..]).unwrap();
    assert_eq!(min, 624_485);
    assert_eq!(n.get(), 3);
    let (max, _) = mini_leb128::read_u32(&bin[24..]).unwrap();
    assert_eq!(max, 624_485);
}

#[test]
fn signed_leb128_constants_encode_canonically() {
    let mut module = empty_module();
    module.types.push(WasmFnType { inputs: vec![], outputs: vec![] });
    module.functions.push(0);
    module.codes.push(WasmFnCode {
        locals: vec![],
        expr: WasmExpr {
            instrs: vec![
                WasmInstr::Drop { value: Box::new(WasmInstr::I32Const { value: 0 }) },
                WasmInstr::Drop { value: Box::new(WasmInstr::I32Const { value: -1 }) },
                WasmInstr::Drop { value: Box::new(WasmInstr::I32Const { value: -123_456 }) },
                WasmInstr::Drop { value: Box::new(WasmInstr::I64Const { value: -123_456 }) },
                WasmInstr::Drop {
                    value: Box::new(WasmInstr::I32ConstLazy {
                        value: WasmLazyI32::Resolved { value: 42 },
                    }),
                },
            ],
        },
    });
    let bin = codegen(&module);
    // The code body: 0 locals, then each constant followed by a drop.
    let body: Vec<u8> = vec![
        0x00, // no locals
        0x41, 0x00, 0x1a, // i32.const 0; drop
        0x41, 0x7f, 0x1a, // i32.const -1; drop
        0x41, 0xc0, 0xbb, 0x78, 0x1a, // i32.const -123456; drop
        0x42, 0xc0, 0xbb, 0x78, 0x1a, // i64.const -123456; drop
        0x41, 0x2a, 0x1a, // lazily resolved i32.const 42; drop
        0x0b, // end
    ];
    let code_section_start = bin.len() - 3 - (body.len() + 4);
    assert_eq!(bin[code_section_start], 0x0a);
    assert_eq!(&bin[code_section_start + 2..code_section_start + 4], &[0x01, body.len() as u8]);
    assert_eq!(&bin[code_section_start + 4..bin.len() - 3], body.as_slice());
    // A conformant signed LEB128 reader recovers the constants.
    let (v, n) = mini_leb128::read_i32(&bin[code_section_start + 12..]).unwrap();
    assert_eq!(v, -123_456);
    assert_eq!(n.get(), 3);
    let (v64, _) = mini_leb128::read_i64(&bin[code_section_start + 17..]).unwrap();
    assert_eq!(v64, -123_456);
}

#[test]
fn imports_globals_and_data_encode_canonically() {
    let mut module = empty_module();
    module.types.push(WasmFnType { inputs: vec![], outputs: vec![] });
    module.imports.push(WasmImport {
        module_name: String::from("env"),
        item_name: String::from("host"),
        item_desc: WasmImportDesc::Func { type_index: 0 },
    });
    module.globals.push(WasmGlobal {
        kind: WasmGlobalKind { value_type: WasmValueType::I32, mutable: true },
        initial_value: WasmExpr { instrs: vec![WasmInstr::I32Const { value: 7 }] },
    });
    module.datas.push(WasmData::Active {
        offset: WasmExpr { instrs: vec![WasmInstr::I32Const { value: 16 }] },
        bytes: vec![1, 2, 3],
    });
    assert!(wasm_emit::validate::validate_module(&module).is_ok());
    let bin = codegen(&module);
    let expected: Vec<u8> = vec![
        0x00, 0x61, 0x73, 0x6d, 0x01, 0x00, 0x00, 0x00,
        0x01, 0x04, 0x01, 0x60, 0x00, 0x00, // types: 1 entry, () -> ()
        // imports: 1 entry, "env" "host", function kind, type index 0
        0x02, 0x0c, 0x01, 0x03, 0x65, 0x6e, 0x76, 0x04, 0x68, 0x6f, 0x73, 0x74, 0x00, 0x00,
        0x03, 0x01, 0x00, // functions: none
        0x05, 0x01, 0x00, // memories: none
        // globals: 1 entry, i32, mutable, initializer i32.const 7
        0x06, 0x06, 0x01, 0x7f, 0x01, 0x41, 0x07, 0x0b,
        0x07, 0x01, 0x00, // exports: none
        0x0a, 0x01, 0x00, // codes: none
        // data: 1 active segment, offset i32.const 16, 3 bytes
        0x0b, 0x09, 0x01, 0x00, 0x41, 0x10, 0x0b, 0x03, 0x01, 0x02, 0x03,
    ];
    assert_eq!(bin, expected);
}

#[test]
fn reader_recovers_section_counts() {
    let module = answer_module();
    let bin = codegen(&module);
    assert_eq!(&bin[0..8], &[0x00, 0x61, 0x73, 0x6d, 0x01, 0x00, 0x00, 0x00]);
    let expected: [(u8, u32); 8] = [
        (0x01, 1), // one type
        (0x02, 0), // no imports
        (0x03, 1), // one function
        (0x05, 0), // no memories
        (0x06, 0), // no globals
        (0x07, 1), // one export
        (0x0a, 1), // one body
        (0x0b, 0), // no data segments
    ];
    let mut pos: usize = 8;
    for (id, count) in expected {
        assert_eq!(bin[pos], id);
        pos += 1;
        let (len, n) = mini_leb128::read_u32(&bin[pos..]).unwrap();
        pos += n.get();
        let (got, _) = mini_leb128::read_u32(&bin[pos..]).unwrap();
        assert_eq!(got, count);
        pos += len as usize;
    }
    assert_eq!(pos, bin.len());
}
