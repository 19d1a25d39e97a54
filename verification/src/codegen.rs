//! The binary encoder: serializes a finalized, validated module into the
//! WebAssembly binary format. The byte layout is stated as spec functions;
//! [`codegen`] is proved to produce exactly that layout.

use vstd::prelude::*;
use vstd::string::StringSliceAdditionalSpecFns;
use crate::wasm::{
    WasmValueType, WasmFnType, WasmInstr, WasmLazyI32, WasmImport, WasmImportDesc, WasmMemory,
    WasmGlobal, WasmExport, WasmLocals, WasmFnCode, WasmExpr, WasmData, WasmModule,
    value_type_byte, encode_value_type, binary_op_opcode, encode_binary_op, load_kind_opcode,
    encode_load_kind, store_kind_opcode, encode_store_kind, export_type_byte, encode_export_type,
    instr_resolved, expr_resolved, module_wf, instr_size, instr_seq_size,
};
use crate::leb128::{leb128_unsigned, leb128_signed, write_u32, write_u64, write_i32, write_i64};

verus! {

/// The module preamble: magic number and version.
pub open spec fn magic_and_version() -> Seq<u8> {
    seq![0x00u8, 0x61u8, 0x73u8, 0x6du8, 0x01u8, 0x00u8, 0x00u8, 0x00u8]
}

/// A framed section: one-byte id, LEB128 byte length of the body, body.
pub open spec fn encode_section(id: u8, body: Seq<u8>) -> Seq<u8> {
    seq![id] + leb128_unsigned(body.len() as int) + body
}

/// The UTF-8 bytes of a name.
pub open spec fn string_bytes(s: String) -> Seq<u8> {
    vstd::utf8::encode_utf8(s@)
}

/// The one-byte encodings of the first `n` value types of `s`, in order.
pub open spec fn value_type_bytes(s: Seq<WasmValueType>, n: int) -> Seq<u8>
    decreases n,
{
    if n <= 0 {
        Seq::empty()
    } else {
        value_type_bytes(s, n - 1) + seq![value_type_byte(s[n - 1])]
    }
}

/// A function type: tag byte, input count and types, output count and types.
pub open spec fn encode_fn_type(t: WasmFnType) -> Seq<u8> {
    seq![0x60u8] + leb128_unsigned(t.inputs@.len() as int)
        + value_type_bytes(t.inputs@, t.inputs@.len() as int)
        + leb128_unsigned(t.outputs@.len() as int)
        + value_type_bytes(t.outputs@, t.outputs@.len() as int)
}

/// The encodings of the first `n` function types of `s`, concatenated.
pub open spec fn encode_fn_types(s: Seq<WasmFnType>, n: int) -> Seq<u8>
    decreases n,
{
    if n <= 0 {
        Seq::empty()
    } else {
        encode_fn_types(s, n - 1) + encode_fn_type(s[n - 1])
    }
}

/// The type section body: count, then each function type.
pub open spec fn type_section_body(m: WasmModule) -> Seq<u8> {
    leb128_unsigned(m.types@.len() as int) + encode_fn_types(m.types@, m.types@.len() as int)
}

/// An import: module name, item name, kind tag, type index.
pub open spec fn encode_import(im: WasmImport) -> Seq<u8> {
    leb128_unsigned(string_bytes(im.module_name).len() as int) + string_bytes(im.module_name)
        + leb128_unsigned(string_bytes(im.item_name).len() as int) + string_bytes(im.item_name)
        + match im.item_desc {
            WasmImportDesc::Func { type_index } => seq![0x00u8] + leb128_unsigned(
                type_index as int,
            ),
        }
}

/// The encodings of the first `n` imports of `s`, concatenated.
pub open spec fn encode_imports(s: Seq<WasmImport>, n: int) -> Seq<u8>
    decreases n,
{
    if n <= 0 {
        Seq::empty()
    } else {
        encode_imports(s, n - 1) + encode_import(s[n - 1])
    }
}

/// The import section body: count, then each import.
pub open spec fn import_section_body(m: WasmModule) -> Seq<u8> {
    leb128_unsigned(m.imports@.len() as int) + encode_imports(
        m.imports@,
        m.imports@.len() as int,
    )
}

/// The LEB128 encodings of the first `n` type indices of `s`, concatenated.
pub open spec fn encode_type_indices(s: Seq<u32>, n: int) -> Seq<u8>
    decreases n,
{
    if n <= 0 {
        Seq::empty()
    } else {
        encode_type_indices(s, n - 1) + leb128_unsigned(s[n - 1] as int)
    }
}

/// The function section body: count of locally defined functions, then each
/// one's type index.
pub open spec fn function_section_body(m: WasmModule) -> Seq<u8> {
    leb128_unsigned(m.functions@.len() as int) + encode_type_indices(
        m.functions@,
        m.functions@.len() as int,
    )
}

/// A memory: limit-flag byte, minimum, and maximum when present.
pub open spec fn encode_memory(mem: WasmMemory) -> Seq<u8> {
    match mem.max {
        Some(mx) => seq![0x01u8] + leb128_unsigned(mem.min as int) + leb128_unsigned(mx as int),
        None => seq![0x00u8] + leb128_unsigned(mem.min as int),
    }
}

/// The encodings of the first `n` memories of `s`, concatenated.
pub open spec fn encode_memories(s: Seq<WasmMemory>, n: int) -> Seq<u8>
    decreases n,
{
    if n <= 0 {
        Seq::empty()
    } else {
        encode_memories(s, n - 1) + encode_memory(s[n - 1])
    }
}

/// The memory section body: count, then each memory's limits.
pub open spec fn memory_section_body(m: WasmModule) -> Seq<u8> {
    leb128_unsigned(m.memories@.len() as int) + encode_memories(
        m.memories@,
        m.memories@.len() as int,
    )
}

/// An instruction sequence terminated by the end opcode.
pub open spec fn encode_expr(e: WasmExpr) -> Seq<u8> {
    encode_instr_seq(e.instrs@, e.instrs@.len() as int) + seq![0x0bu8]
}

/// A global: value type, mutability byte, constant initializer.
pub open spec fn encode_global(g: WasmGlobal) -> Seq<u8> {
    seq![value_type_byte(g.kind.value_type)] + seq![
        if g.kind.mutable {
            0x01u8
        } else {
            0x00u8
        },
    ] + encode_expr(g.initial_value)
}

/// The encodings of the first `n` globals of `s`, concatenated.
pub open spec fn encode_globals(s: Seq<WasmGlobal>, n: int) -> Seq<u8>
    decreases n,
{
    if n <= 0 {
        Seq::empty()
    } else {
        encode_globals(s, n - 1) + encode_global(s[n - 1])
    }
}

/// The global section body: count, then each global.
pub open spec fn global_section_body(m: WasmModule) -> Seq<u8> {
    leb128_unsigned(m.globals@.len() as int) + encode_globals(
        m.globals@,
        m.globals@.len() as int,
    )
}

/// An export: name length and bytes, kind tag byte, item index.
pub open spec fn encode_export(e: WasmExport) -> Seq<u8> {
    leb128_unsigned(string_bytes(e.export_name).len() as int) + string_bytes(e.export_name)
        + seq![export_type_byte(e.export_type)] + leb128_unsigned(e.exported_item_index as int)
}

/// The encodings of the first `n` exports of `s`, concatenated.
pub open spec fn encode_exports(s: Seq<WasmExport>, n: int) -> Seq<u8>
    decreases n,
{
    if n <= 0 {
        Seq::empty()
    } else {
        encode_exports(s, n - 1) + encode_export(s[n - 1])
    }
}

/// The export section body: count, then each export.
pub open spec fn export_section_body(m: WasmModule) -> Seq<u8> {
    leb128_unsigned(m.exports@.len() as int) + encode_exports(
        m.exports@,
        m.exports@.len() as int,
    )
}

/// The encodings of the first `n` local declarations of `s`: each is a
/// count and a type byte.
pub open spec fn encode_locals(s: Seq<WasmLocals>, n: int) -> Seq<u8>
    decreases n,
{
    if n <= 0 {
        Seq::empty()
    } else {
        encode_locals(s, n - 1) + leb128_unsigned(s[n - 1].count as int) + seq![
            value_type_byte(s[n - 1].value_type),
        ]
    }
}

/// The inner bytes of one code entry: local-declaration count, the
/// declarations, then the body expression with its end opcode.
pub open spec fn code_entry(c: WasmFnCode) -> Seq<u8> {
    leb128_unsigned(c.locals@.len() as int) + encode_locals(c.locals@, c.locals@.len() as int)
        + encode_expr(c.expr)
}

/// One code entry: the byte length of the inner bytes, then the inner bytes.
pub open spec fn encode_code(c: WasmFnCode) -> Seq<u8> {
    leb128_unsigned(code_entry(c).len() as int) + code_entry(c)
}

/// The encodings of the first `n` code entries of `s`, concatenated.
pub open spec fn encode_codes(s: Seq<WasmFnCode>, n: int) -> Seq<u8>
    decreases n,
{
    if n <= 0 {
        Seq::empty()
    } else {
        encode_codes(s, n - 1) + encode_code(s[n - 1])
    }
}

/// The code section body: count, then each function body.
pub open spec fn code_section_body(m: WasmModule) -> Seq<u8> {
    leb128_unsigned(m.codes@.len() as int) + encode_codes(m.codes@, m.codes@.len() as int)
}

/// An active data segment: zero flag, constant offset expression, byte
/// length, raw bytes.
pub open spec fn encode_data(d: WasmData) -> Seq<u8> {
    match d {
        WasmData::Active { offset, bytes } => seq![0x00u8] + encode_expr(offset)
            + leb128_unsigned(bytes@.len() as int) + bytes@,
    }
}

/// The encodings of the first `n` data segments of `s`, concatenated.
pub open spec fn encode_datas(s: Seq<WasmData>, n: int) -> Seq<u8>
    decreases n,
{
    if n <= 0 {
        Seq::empty()
    } else {
        encode_datas(s, n - 1) + encode_data(s[n - 1])
    }
}

/// The data section body: count, then each segment.
pub open spec fn data_section_body(m: WasmModule) -> Seq<u8> {
    leb128_unsigned(m.datas@.len() as int) + encode_datas(m.datas@, m.datas@.len() as int)
}

/// One instruction node: operand sub-trees depth-first, then the opcode,
/// then trailing immediates.
pub open spec fn encode_instr(instr: WasmInstr) -> Seq<u8>
    decreases instr, 0int,
{
    match instr {
        WasmInstr::NoInstr => Seq::empty(),
        WasmInstr::Unreachable => seq![0x00u8],
        WasmInstr::Drop { value } => encode_instr(*value) + seq![0x1au8],
        WasmInstr::I32Const { value } => seq![0x41u8] + leb128_signed(value as int),
        WasmInstr::I32ConstLazy { value } => match value {
            WasmLazyI32::Resolved { value } => seq![0x41u8] + leb128_signed(value as int),
            WasmLazyI32::Unresolved => seq![0x41u8] + leb128_signed(0),
        },
        WasmInstr::I64Const { value } => seq![0x42u8] + leb128_signed(value as int),
        WasmInstr::BinaryOp { kind, lhs, rhs } => encode_instr(*lhs) + encode_instr(*rhs) + seq![
            binary_op_opcode(kind),
        ],
        WasmInstr::Load { kind, align, offset, address_instr } => encode_instr(*address_instr)
            + seq![load_kind_opcode(kind)] + leb128_unsigned(align as int) + leb128_unsigned(
            offset as int,
        ),
        WasmInstr::Store { kind, align, offset, address_instr, value_instr } => encode_instr(
            *address_instr,
        ) + encode_instr(*value_instr) + seq![store_kind_opcode(kind)] + leb128_unsigned(
            align as int,
        ) + leb128_unsigned(offset as int),
        WasmInstr::MemorySize => seq![0x3fu8, 0x00u8],
        WasmInstr::MemoryGrow { size_instr } => encode_instr(*size_instr) + seq![0x40u8, 0x00u8],
        WasmInstr::LocalGet { local_index, .. } => seq![0x20u8] + leb128_unsigned(
            local_index as int,
        ),
        WasmInstr::LocalSet { local_index, value } => encode_instr(*value) + seq![0x21u8]
            + leb128_unsigned(local_index as int),
        WasmInstr::GlobalGet { global_index, .. } => seq![0x23u8] + leb128_unsigned(
            global_index as int,
        ),
        WasmInstr::GlobalSet { global_index, value } => encode_instr(*value) + seq![0x24u8]
            + leb128_unsigned(global_index as int),
        WasmInstr::Return { value } => encode_instr(*value) + seq![0x0fu8],
        WasmInstr::Call { fn_index, args, .. } => encode_instr_seq(args@, args@.len() as int)
            + seq![0x10u8] + leb128_unsigned(fn_index as int),
        WasmInstr::If { block_type, cond, then_branch, else_branch } => encode_instr(*cond)
            + seq![0x04u8, value_type_byte(block_type)] + encode_instr(*then_branch)
            + seq![0x05u8] + encode_instr(*else_branch) + seq![0x0bu8],
        WasmInstr::IfSingleBranch { cond, then_branch } => encode_instr(*cond) + seq![
            0x04u8,
            0x40u8,
        ] + encode_instr(*then_branch) + seq![0x0bu8],
        WasmInstr::MultiValueEmit { values } => encode_instr_seq(values@, values@.len() as int),
        WasmInstr::Loop { instrs, .. } => seq![0x02u8, 0x40u8, 0x03u8, 0x40u8] + encode_instr_seq(
            instrs@,
            instrs@.len() as int,
        ) + seq![0x0cu8, 0x00u8, 0x0bu8, 0x0bu8],
        WasmInstr::LoopBreak => seq![0x0cu8, 0x01u8],
        WasmInstr::LoopContinue => seq![0x0cu8, 0x00u8],
    }
}

/// The encodings of the first `n` instructions of `s`, concatenated.
pub open spec fn encode_instr_seq(s: Seq<WasmInstr>, n: int) -> Seq<u8>
    recommends
        n <= s.len(),
    decreases s, n,
{
    if n <= 0 || s.len() < n {
        Seq::empty()
    } else {
        encode_instr_seq(s, n - 1) + encode_instr(s[n - 1])
    }
}

/// The whole module: preamble, then the eight sections in fixed order,
/// each present even when empty.
pub open spec fn encode_module(m: WasmModule) -> Seq<u8> {
    magic_and_version() + encode_section(0x01, type_section_body(m)) + encode_section(
        0x02,
        import_section_body(m),
    ) + encode_section(0x03, function_section_body(m)) + encode_section(
        0x05,
        memory_section_body(m),
    ) + encode_section(0x06, global_section_body(m)) + encode_section(
        0x07,
        export_section_body(m),
    ) + encode_section(0x0a, code_section_body(m)) + encode_section(0x0b, data_section_body(m))
}

/// Encoding is deterministic: any two byte sequences obtained by encoding
/// the same module value are identical.
pub proof fn lemma_codegen_deterministic(m: WasmModule, b1: Seq<u8>, b2: Seq<u8>)
    requires
        b1 == encode_module(m),
        b2 == encode_module(m),
    ensures
        b1 == b2,
{
}

fn write_u8(out: &mut Vec<u8>, value: u8)
    ensures
        final(out)@ == old(out)@ + seq![value],
{
    out.push(value);
}

fn write_all(out: &mut Vec<u8>, value: &[u8])
    ensures
        final(out)@ == old(out)@ + value@,
{
    let ghost base = out@;
    let mut i: usize = 0;
    while i < value.len()
        invariant
            i <= value@.len(),
            out@ == base + value@.take(i as int),
        decreases value@.len() - i,
    {
        out.push(value[i]);
        proof {
            assert(value@.take(i + 1 as int) =~= value@.take(i as int) + seq![value@[i as int]]);
        }
        i += 1;
    }
    proof {
        assert(value@.take(value@.len() as int) =~= value@);
    }
}

pub(crate) fn write_magic_and_version(out: &mut Vec<u8>)
    ensures
        final(out)@ == old(out)@ + magic_and_version(),
{
    write_u8(out, 0x00);
    write_u8(out, 0x61);
    write_u8(out, 0x73);
    write_u8(out, 0x6d);
    write_u8(out, 0x01);
    write_u8(out, 0x00);
    write_u8(out, 0x00);
    write_u8(out, 0x00);
    proof {
        assert(final(out)@ =~= old(out)@ + magic_and_version());
    }
}

/// Frames the scratch buffer as one section and drains it into `out`.
pub(crate) fn write_section(out: &mut Vec<u8>, section: &mut Vec<u8>, section_code: u8)
    ensures
        final(out)@ == old(out)@ + encode_section(section_code, old(section)@),
        final(section)@ == Seq::<u8>::empty(),
{
    write_u8(out, section_code);
    write_u64(out, section.len() as u64);
    out.append(section);
    proof {
        assert(final(out)@ =~= old(out)@ + encode_section(section_code, old(section)@));
    }
}

/// Appends the UTF-8 bytes of `name`, prefixed with their LEB128 length.
fn write_name(out: &mut Vec<u8>, name: &String)
    ensures
        final(out)@ == old(out)@ + leb128_unsigned(string_bytes(*name).len() as int)
            + string_bytes(*name),
{
    let bytes = name.as_str().as_bytes();
    write_u64(out, bytes.len() as u64);
    write_all(out, bytes);
}

fn write_value_types(out: &mut Vec<u8>, types: &Vec<WasmValueType>)
    ensures
        final(out)@ == old(out)@ + leb128_unsigned(types@.len() as int) + value_type_bytes(
            types@,
            types@.len() as int,
        ),
{
    write_u64(out, types.len() as u64);
    let ghost base = out@;
    let mut i: usize = 0;
    while i < types.len()
        invariant
            i <= types@.len(),
            out@ == base + value_type_bytes(types@, i as int),
        decreases types@.len() - i,
    {
        write_u8(out, encode_value_type(types[i]));
        i += 1;
    }
}

pub(crate) fn write_type_section(out: &mut Vec<u8>, module: &WasmModule)
    ensures
        final(out)@ == old(out)@ + type_section_body(*module),
{
    write_u64(out, module.types.len() as u64);
    let ghost base = out@;
    let mut i: usize = 0;
    while i < module.types.len()
        invariant
            i <= module.types@.len(),
            out@ == base + encode_fn_types(module.types@, i as int),
        decreases module.types@.len() - i,
    {
        let fn_type = &module.types[i];
        write_u8(out, 0x60);
        write_value_types(out, &fn_type.inputs);
        write_value_types(out, &fn_type.outputs);
        i += 1;
    }
}

pub(crate) fn write_import_section(out: &mut Vec<u8>, module: &WasmModule)
    ensures
        final(out)@ == old(out)@ + import_section_body(*module),
{
    write_u64(out, module.imports.len() as u64);
    let ghost base = out@;
    let mut i: usize = 0;
    while i < module.imports.len()
        invariant
            i <= module.imports@.len(),
            out@ == base + encode_imports(module.imports@, i as int),
        decreases module.imports@.len() - i,
    {
        let import = &module.imports[i];
        write_name(out, &import.module_name);
        write_name(out, &import.item_name);
        match import.item_desc {
            WasmImportDesc::Func { type_index } => {
                write_u8(out, 0x00);
                write_u32(out, type_index);
            },
        }
        i += 1;
    }
}

pub(crate) fn write_function_section(out: &mut Vec<u8>, module: &WasmModule)
    ensures
        final(out)@ == old(out)@ + function_section_body(*module),
{
    write_u64(out, module.functions.len() as u64);
    let ghost base = out@;
    let mut i: usize = 0;
    while i < module.functions.len()
        invariant
            i <= module.functions@.len(),
            out@ == base + encode_type_indices(module.functions@, i as int),
        decreases module.functions@.len() - i,
    {
        write_u32(out, module.functions[i]);
        i += 1;
    }
}

pub(crate) fn write_memory_section(out: &mut Vec<u8>, module: &WasmModule)
    ensures
        final(out)@ == old(out)@ + memory_section_body(*module),
{
    write_u64(out, module.memories.len() as u64);
    let ghost base = out@;
    let mut i: usize = 0;
    while i < module.memories.len()
        invariant
            i <= module.memories@.len(),
            out@ == base + encode_memories(module.memories@, i as int),
        decreases module.memories@.len() - i,
    {
        let memory = &module.memories[i];
        match memory.max {
            Some(memory_max) => {
                write_u8(out, 0x01);
                write_u32(out, memory.min);
                write_u32(out, memory_max);
            },
            None => {
                write_u8(out, 0x00);
                write_u32(out, memory.min);
            },
        }
        i += 1;
    }
}

pub(crate) fn write_global_section(out: &mut Vec<u8>, module: &WasmModule)
    requires
        forall|i: int|
            0 <= i < module.globals@.len() ==> expr_resolved(
                (#[trigger] module.globals@[i]).initial_value,
            ),
    ensures
        final(out)@ == old(out)@ + global_section_body(*module),
{
    write_u64(out, module.globals.len() as u64);
    let ghost base = out@;
    let mut i: usize = 0;
    while i < module.globals.len()
        invariant
            i <= module.globals@.len(),
            out@ == base + encode_globals(module.globals@, i as int),
            forall|j: int|
                0 <= j < module.globals@.len() ==> expr_resolved(
                    (#[trigger] module.globals@[j]).initial_value,
                ),
        decreases module.globals@.len() - i,
    {
        let global = &module.globals[i];
        write_u8(out, encode_value_type(global.kind.value_type));
        if global.kind.mutable {
            write_u8(out, 0x01);
        } else {
            write_u8(out, 0x00);
        }
        write_expr(out, &global.initial_value);
        i += 1;
    }
}

pub(crate) fn write_export_section(out: &mut Vec<u8>, module: &WasmModule)
    ensures
        final(out)@ == old(out)@ + export_section_body(*module),
{
    write_u64(out, module.exports.len() as u64);
    let ghost base = out@;
    let mut i: usize = 0;
    while i < module.exports.len()
        invariant
            i <= module.exports@.len(),
            out@ == base + encode_exports(module.exports@, i as int),
        decreases module.exports@.len() - i,
    {
        let export = &module.exports[i];
        write_name(out, &export.export_name);
        write_u8(out, encode_export_type(export.export_type));
        write_u32(out, export.exported_item_index);
        i += 1;
    }
}

fn write_locals(out: &mut Vec<u8>, locals: &Vec<WasmLocals>)
    ensures
        final(out)@ == old(out)@ + leb128_unsigned(locals@.len() as int) + encode_locals(
            locals@,
            locals@.len() as int,
        ),
{
    write_u64(out, locals.len() as u64);
    let ghost base = out@;
    let mut i: usize = 0;
    while i < locals.len()
        invariant
            i <= locals@.len(),
            out@ == base + encode_locals(locals@, i as int),
        decreases locals@.len() - i,
    {
        let locals_of_some_type = &locals[i];
        write_u32(out, locals_of_some_type.count);
        write_u8(out, encode_value_type(locals_of_some_type.value_type));
        i += 1;
    }
}

pub(crate) fn write_code_section(out: &mut Vec<u8>, module: &WasmModule)
    requires
        forall|i: int|
            0 <= i < module.codes@.len() ==> expr_resolved((#[trigger] module.codes@[i]).expr),
    ensures
        final(out)@ == old(out)@ + code_section_body(*module),
{
    let mut fn_section: Vec<u8> = Vec::new();

    write_u64(out, module.codes.len() as u64);
    let ghost base = out@;
    let mut i: usize = 0;
    while i < module.codes.len()
        invariant
            i <= module.codes@.len(),
            out@ == base + encode_codes(module.codes@, i as int),
            fn_section@ == Seq::<u8>::empty(),
            forall|j: int|
                0 <= j < module.codes@.len() ==> expr_resolved((#[trigger] module.codes@[j]).expr),
        decreases module.codes@.len() - i,
    {
        let fn_code = &module.codes[i];
        write_locals(&mut fn_section, &fn_code.locals);
        write_expr(&mut fn_section, &fn_code.expr);
        proof {
            assert(fn_section@ =~= code_entry(module.codes@[i as int]));
        }
        write_u64(out, fn_section.len() as u64);
        out.append(&mut fn_section);
        i += 1;
    }
}

pub(crate) fn write_data_section(out: &mut Vec<u8>, module: &WasmModule)
    requires
        forall|i: int|
            0 <= i < module.datas@.len() ==> match #[trigger] module.datas@[i] {
                WasmData::Active { offset, .. } => expr_resolved(offset),
            },
    ensures
        final(out)@ == old(out)@ + data_section_body(*module),
{
    write_u64(out, module.datas.len() as u64);
    let ghost base = out@;
    let mut i: usize = 0;
    while i < module.datas.len()
        invariant
            i <= module.datas@.len(),
            out@ == base + encode_datas(module.datas@, i as int),
            forall|j: int|
                0 <= j < module.datas@.len() ==> match #[trigger] module.datas@[j] {
                    WasmData::Active { offset, .. } => expr_resolved(offset),
                },
        decreases module.datas@.len() - i,
    {
        let data = &module.datas[i];
        match data {
            WasmData::Active { offset, bytes } => {
                write_u8(out, 0x00);
                write_expr(out, offset);
                write_u64(out, bytes.len() as u64);
                write_all(out, bytes.as_slice());
            },
        }
        i += 1;
    }
}

/// Appends the instruction sequence of `e` followed by the end opcode.
fn write_expr(out: &mut Vec<u8>, expr: &WasmExpr)
    requires
        expr_resolved(*expr),
    ensures
        final(out)@ == old(out)@ + encode_expr(*expr),
{
    let ghost base = out@;
    let mut i: usize = 0;
    while i < expr.instrs.len()
        invariant
            i <= expr.instrs@.len(),
            out@ == base + encode_instr_seq(expr.instrs@, i as int),
            expr_resolved(*expr),
        decreases expr.instrs@.len() - i,
    {
        write_instr(out, &expr.instrs[i]);
        i += 1;
    }
    write_u8(out, 0x0b);
}

/// Appends one instruction node: operands depth-first, then the opcode and
/// its immediates.
#[verifier::rlimit(60)]
fn write_instr(out: &mut Vec<u8>, instr: &WasmInstr)
    requires
        instr_resolved(*instr),
    ensures
        final(out)@ == old(out)@ + encode_instr(*instr),
    decreases instr_size(*instr),
{
    match instr {
        WasmInstr::NoInstr => {},
        WasmInstr::Unreachable => {
            write_u8(out, 0x00);
        },
        WasmInstr::Drop { value } => {
            write_instr(out, &**value);
            write_u8(out, 0x1a);
        },
        WasmInstr::I32Const { value } => {
            write_u8(out, 0x41);
            write_i32(out, *value);
        },
        WasmInstr::I32ConstLazy { value } => {
            write_u8(out, 0x41);
            write_i32(out, value.get());
        },
        WasmInstr::I64Const { value } => {
            write_u8(out, 0x42);
            write_i64(out, *value);
        },
        WasmInstr::BinaryOp { kind, lhs, rhs } => {
            write_instr(out, &**lhs);
            write_instr(out, &**rhs);
            write_u8(out, encode_binary_op(*kind));
        },
        WasmInstr::Load { kind, align, offset, address_instr } => {
            write_instr(out, &**address_instr);
            write_u8(out, encode_load_kind(*kind));
            write_u32(out, *align);
            write_u32(out, *offset);
        },
        WasmInstr::Store { kind, align, offset, address_instr, value_instr } => {
            write_instr(out, &**address_instr);
            write_instr(out, &**value_instr);
            write_u8(out, encode_store_kind(*kind));
            write_u32(out, *align);
            write_u32(out, *offset);
        },
        WasmInstr::MemorySize => {
            write_u8(out, 0x3f);
            write_u8(out, 0x00);
        },
        WasmInstr::MemoryGrow { size_instr } => {
            write_instr(out, &**size_instr);
            write_u8(out, 0x40);
            write_u8(out, 0x00);
        },
        WasmInstr::LocalGet { local_index, .. } => {
            write_u8(out, 0x20);
            write_u32(out, *local_index);
        },
        WasmInstr::LocalSet { local_index, value } => {
            write_instr(out, &**value);
            write_u8(out, 0x21);
            write_u32(out, *local_index);
        },
        WasmInstr::GlobalGet { global_index, .. } => {
            write_u8(out, 0x23);
            write_u32(out, *global_index);
        },
        WasmInstr::GlobalSet { global_index, value } => {
            write_instr(out, &**value);
            write_u8(out, 0x24);
            write_u32(out, *global_index);
        },
        WasmInstr::Return { value } => {
            write_instr(out, &**value);
            write_u8(out, 0x0f);
        },
        WasmInstr::Call { fn_index, args, .. } => {
            let ghost base = out@;
            let mut i: usize = 0;
            while i < args.len()
                invariant
                    i <= args@.len(),
                    out@ == base + encode_instr_seq(args@, i as int),
                    forall|j: int| 0 <= j < args@.len() ==> instr_resolved(#[trigger] args@[j]),
                    instr_seq_size(args@, args@.len() as int) < instr_size(*instr),
                decreases args@.len() - i,
            {
                proof {
                    crate::wasm::lemma_instr_seq_size_element(args@, args@.len() as int, i as int);
                }
                write_instr(out, &args[i]);
                i += 1;
            }
            write_u8(out, 0x10);
            write_u32(out, *fn_index);
        },
        WasmInstr::If { block_type, cond, then_branch, else_branch } => {
            write_instr(out, &**cond);
            write_u8(out, 0x04);
            write_u8(out, encode_value_type(*block_type));
            write_instr(out, &**then_branch);
            write_u8(out, 0x05);
            write_instr(out, &**else_branch);
            write_u8(out, 0x0b);
        },
        WasmInstr::IfSingleBranch { cond, then_branch } => {
            write_instr(out, &**cond);
            write_u8(out, 0x04);
            write_u8(out, 0x40);
            write_instr(out, &**then_branch);
            write_u8(out, 0x0b);
        },
        WasmInstr::MultiValueEmit { values } => {
            let ghost base = out@;
            let mut i: usize = 0;
            while i < values.len()
                invariant
                    i <= values@.len(),
                    out@ == base + encode_instr_seq(values@, i as int),
                    forall|j: int| 0 <= j < values@.len() ==> instr_resolved(#[trigger] values@[j]),
                    instr_seq_size(values@, values@.len() as int) < instr_size(*instr),
                decreases values@.len() - i,
            {
                proof {
                    crate::wasm::lemma_instr_seq_size_element(values@, values@.len() as int, i as int);
                }
                write_instr(out, &values[i]);
                i += 1;
            }
        },
        WasmInstr::Loop { instrs, .. } => {
            write_u8(out, 0x02);
            write_u8(out, 0x40);
            write_u8(out, 0x03);
            write_u8(out, 0x40);
            let ghost base = out@;
            let mut i: usize = 0;
            while i < instrs.len()
                invariant
                    i <= instrs@.len(),
                    out@ == base + encode_instr_seq(instrs@, i as int),
                    forall|j: int| 0 <= j < instrs@.len() ==> instr_resolved(#[trigger] instrs@[j]),
                    instr_seq_size(instrs@, instrs@.len() as int) < instr_size(*instr),
                decreases instrs@.len() - i,
            {
                proof {
                    crate::wasm::lemma_instr_seq_size_element(instrs@, instrs@.len() as int, i as int);
                }
                write_instr(out, &instrs[i]);
                i += 1;
            }
            write_u8(out, 0x0c);
            write_u8(out, 0x00);
            write_u8(out, 0x0b);
            write_u8(out, 0x0b);
        },
        WasmInstr::LoopBreak => {
            write_u8(out, 0x0c);
            write_u8(out, 0x01);
        },
        WasmInstr::LoopContinue => {
            write_u8(out, 0x0c);
            write_u8(out, 0x00);
        },
    }
}

/// Serializes a finalized, validated module into the WebAssembly binary
/// format: magic number and version, then the eight sections in fixed
/// order, each framed with its id and LEB128 byte length.
pub fn codegen(module: &WasmModule) -> (binary: Vec<u8>)
    requires
        module_wf(*module),
    ensures
        binary@ == encode_module(*module),
{
    let mut binary: Vec<u8> = Vec::new();
    let mut section: Vec<u8> = Vec::new();

    write_magic_and_version(&mut binary);

    write_type_section(&mut section, module);
    write_section(&mut binary, &mut section, 0x01);

    write_import_section(&mut section, module);
    write_section(&mut binary, &mut section, 0x02);

    write_function_section(&mut section, module);
    write_section(&mut binary, &mut section, 0x03);

    write_memory_section(&mut section, module);
    write_section(&mut binary, &mut section, 0x05);

    write_global_section(&mut section, module);
    write_section(&mut binary, &mut section, 0x06);

    write_export_section(&mut section, module);
    write_section(&mut binary, &mut section, 0x07);

    write_code_section(&mut section, module);
    write_section(&mut binary, &mut section, 0x0a);

    write_data_section(&mut section, module);
    write_section(&mut binary, &mut section, 0x0b);

    proof {
        assert(binary@ =~= encode_module(*module));
    }
    binary
}

} // verus!
