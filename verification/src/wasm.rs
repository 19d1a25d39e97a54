//! The data model: value types, function signatures, the instruction tree,
//! and the module descriptors that the type checker and the binary encoder
//! consume.

use vstd::prelude::*;

verus! {

/// A WebAssembly value type. Each has a fixed one-byte encoding, given by
/// [`value_type_byte`].
#[derive(Clone, Copy, PartialEq, Eq, Structural, Debug)]
pub enum WasmValueType {
    I32,
    I64,
    F32,
    F64,
    V128,
    FuncRef,
    ExternRef,
}

/// The one-byte encoding of a value type.
pub open spec fn value_type_byte(t: WasmValueType) -> u8 {
    match t {
        WasmValueType::I32 => 0x7f,
        WasmValueType::I64 => 0x7e,
        WasmValueType::F32 => 0x7d,
        WasmValueType::F64 => 0x7c,
        WasmValueType::V128 => 0x7b,
        WasmValueType::FuncRef => 0x70,
        WasmValueType::ExternRef => 0x6f,
    }
}

/// Emits the one-byte encoding of a value type.
pub fn encode_value_type(t: WasmValueType) -> (r: u8)
    ensures
        r == value_type_byte(t),
{
    match t {
        WasmValueType::I32 => 0x7f,
        WasmValueType::I64 => 0x7e,
        WasmValueType::F32 => 0x7d,
        WasmValueType::F64 => 0x7c,
        WasmValueType::V128 => 0x7b,
        WasmValueType::FuncRef => 0x70,
        WasmValueType::ExternRef => 0x6f,
    }
}

/// A function signature: ordered input and output value types.
#[derive(Debug)]
pub struct WasmFnType {
    pub inputs: Vec<WasmValueType>,
    pub outputs: Vec<WasmValueType>,
}

/// A binary operator of the instruction tree. Every operator here consumes
/// two `i32` operands and produces an `i32` result.
#[derive(Clone, Copy, PartialEq, Eq, Structural, Debug)]
pub enum WasmBinaryOpKind {
    I32LessThanSigned,
    I32GreaterEqualSigned,
    I32Add,
    I32Sub,
    I32Mul,
}

/// The opcode byte of a binary operator.
pub open spec fn binary_op_opcode(k: WasmBinaryOpKind) -> u8 {
    match k {
        WasmBinaryOpKind::I32LessThanSigned => 0x48,
        WasmBinaryOpKind::I32GreaterEqualSigned => 0x4e,
        WasmBinaryOpKind::I32Add => 0x6a,
        WasmBinaryOpKind::I32Sub => 0x6b,
        WasmBinaryOpKind::I32Mul => 0x6c,
    }
}

/// Emits the opcode byte of a binary operator.
pub fn encode_binary_op(k: WasmBinaryOpKind) -> (r: u8)
    ensures
        r == binary_op_opcode(k),
{
    match k {
        WasmBinaryOpKind::I32LessThanSigned => 0x48,
        WasmBinaryOpKind::I32GreaterEqualSigned => 0x4e,
        WasmBinaryOpKind::I32Add => 0x6a,
        WasmBinaryOpKind::I32Sub => 0x6b,
        WasmBinaryOpKind::I32Mul => 0x6c,
    }
}

/// The result type of a binary operator, fixed by the operator kind.
pub open spec fn binary_op_result_type(k: WasmBinaryOpKind) -> WasmValueType {
    WasmValueType::I32
}

/// Returns the result type of a binary operator.
pub fn binary_op_result(k: WasmBinaryOpKind) -> (r: WasmValueType)
    ensures
        r == binary_op_result_type(k),
{
    WasmValueType::I32
}

/// A memory load shape: the opcode and the loaded value type.
#[derive(Clone, Copy, PartialEq, Eq, Structural, Debug)]
pub enum WasmLoadKind {
    I32Load,
    I32Load8Unsigned,
}

/// The opcode byte of a load.
pub open spec fn load_kind_opcode(k: WasmLoadKind) -> u8 {
    match k {
        WasmLoadKind::I32Load => 0x28,
        WasmLoadKind::I32Load8Unsigned => 0x2d,
    }
}

/// Emits the opcode byte of a load.
pub fn encode_load_kind(k: WasmLoadKind) -> (r: u8)
    ensures
        r == load_kind_opcode(k),
{
    match k {
        WasmLoadKind::I32Load => 0x28,
        WasmLoadKind::I32Load8Unsigned => 0x2d,
    }
}

/// The value type a load produces.
pub open spec fn load_kind_value_type(k: WasmLoadKind) -> WasmValueType {
    match k {
        WasmLoadKind::I32Load => WasmValueType::I32,
        WasmLoadKind::I32Load8Unsigned => WasmValueType::I32,
    }
}

/// Returns the value type a load produces.
pub fn load_value_type(k: WasmLoadKind) -> (r: WasmValueType)
    ensures
        r == load_kind_value_type(k),
{
    match k {
        WasmLoadKind::I32Load => WasmValueType::I32,
        WasmLoadKind::I32Load8Unsigned => WasmValueType::I32,
    }
}

/// A memory store shape.
#[derive(Clone, Copy, PartialEq, Eq, Structural, Debug)]
pub enum WasmStoreKind {
    I32Store,
    I32Store8,
}

/// The opcode byte of a store.
pub open spec fn store_kind_opcode(k: WasmStoreKind) -> u8 {
    match k {
        WasmStoreKind::I32Store => 0x36,
        WasmStoreKind::I32Store8 => 0x3a,
    }
}

/// Emits the opcode byte of a store.
pub fn encode_store_kind(k: WasmStoreKind) -> (r: u8)
    ensures
        r == store_kind_opcode(k),
{
    match k {
        WasmStoreKind::I32Store => 0x36,
        WasmStoreKind::I32Store8 => 0x3a,
    }
}

/// A source location, carried by the instruction-tree nodes that the type
/// checker can report on.
#[derive(Clone, Copy, PartialEq, Eq, Structural, Debug)]
pub struct Location {
    pub offset: usize,
    pub length: usize,
}

/// A write-once cell for a constant that a later compilation stage patches
/// after the tree is built. The encoder reads it only once it is resolved;
/// reading an unresolved cell is rejected by validation beforehand.
#[derive(Clone, Copy, PartialEq, Eq, Structural, Debug)]
pub enum WasmLazyI32 {
    Unresolved,
    Resolved { value: i32 },
}

impl WasmLazyI32 {
    /// Reads the resolved constant.
    pub fn get(&self) -> (r: i32)
        requires
            self is Resolved,
        ensures
            r == self->value,
    {
        match self {
            WasmLazyI32::Resolved { value } => *value,
            WasmLazyI32::Unresolved => vstd::pervasive::unreached(),
        }
    }
}

/// One node of the instruction tree. Each variant owns its operand
/// sub-trees; ownership is strictly tree-shaped.
#[derive(Debug)]
pub enum WasmInstr {
    NoInstr,
    Unreachable,
    Drop { value: Box<WasmInstr> },
    I32Const { value: i32 },
    I32ConstLazy { value: WasmLazyI32 },
    I64Const { value: i64 },
    BinaryOp { kind: WasmBinaryOpKind, lhs: Box<WasmInstr>, rhs: Box<WasmInstr> },
    Load { kind: WasmLoadKind, align: u32, offset: u32, address_instr: Box<WasmInstr> },
    Store {
        kind: WasmStoreKind,
        align: u32,
        offset: u32,
        address_instr: Box<WasmInstr>,
        value_instr: Box<WasmInstr>,
    },
    MemorySize,
    MemoryGrow { size_instr: Box<WasmInstr> },
    LocalGet { local_index: u32, loc: Location },
    LocalSet { local_index: u32, value: Box<WasmInstr> },
    GlobalGet { global_index: u32, loc: Location },
    GlobalSet { global_index: u32, value: Box<WasmInstr> },
    Return { value: Box<WasmInstr> },
    Call { fn_index: u32, args: Vec<WasmInstr>, loc: Location },
    If {
        block_type: WasmValueType,
        cond: Box<WasmInstr>,
        then_branch: Box<WasmInstr>,
        else_branch: Box<WasmInstr>,
    },
    IfSingleBranch { cond: Box<WasmInstr>, then_branch: Box<WasmInstr> },
    MultiValueEmit { values: Vec<WasmInstr> },
    Loop { instrs: Vec<WasmInstr>, loc: Location },
    LoopBreak,
    LoopContinue,
}

/// An instruction sequence; encoded it is terminated by the end opcode.
#[derive(Debug)]
pub struct WasmExpr {
    pub instrs: Vec<WasmInstr>,
}

/// An imported item: function imports by type index.
#[derive(Clone, Copy, PartialEq, Eq, Structural, Debug)]
pub enum WasmImportDesc {
    Func { type_index: u32 },
}

/// An import descriptor: module name, item name, and the imported item.
#[derive(Debug)]
pub struct WasmImport {
    pub module_name: String,
    pub item_name: String,
    pub item_desc: WasmImportDesc,
}

/// Memory limits: minimum page count, and an optional maximum.
#[derive(Clone, Copy, PartialEq, Eq, Structural, Debug)]
pub struct WasmMemory {
    pub min: u32,
    pub max: Option<u32>,
}

/// The type and mutability of a global.
#[derive(Clone, Copy, PartialEq, Eq, Structural, Debug)]
pub struct WasmGlobalKind {
    pub value_type: WasmValueType,
    pub mutable: bool,
}

/// A global definition: its kind and its constant initializer.
#[derive(Debug)]
pub struct WasmGlobal {
    pub kind: WasmGlobalKind,
    pub initial_value: WasmExpr,
}

/// The kind of entity an export refers to.
#[derive(Clone, Copy, PartialEq, Eq, Structural, Debug)]
pub enum WasmExportType {
    Func,
    Mem,
    Global,
}

/// The kind tag byte of an export.
pub open spec fn export_type_byte(t: WasmExportType) -> u8 {
    match t {
        WasmExportType::Func => 0x00,
        WasmExportType::Mem => 0x02,
        WasmExportType::Global => 0x03,
    }
}

/// Emits the kind tag byte of an export.
pub fn encode_export_type(t: WasmExportType) -> (r: u8)
    ensures
        r == export_type_byte(t),
{
    match t {
        WasmExportType::Func => 0x00,
        WasmExportType::Mem => 0x02,
        WasmExportType::Global => 0x03,
    }
}

/// An export descriptor: UTF-8 name, entity kind, and the index of the
/// exported item within its kind's index space.
#[derive(Debug)]
pub struct WasmExport {
    pub export_type: WasmExportType,
    pub export_name: String,
    pub exported_item_index: u32,
}

/// A run of `count` function-local variables sharing one type.
#[derive(Clone, Copy, PartialEq, Eq, Structural, Debug)]
pub struct WasmLocals {
    pub count: u32,
    pub value_type: WasmValueType,
}

/// A function body: its local declarations and its instruction sequence.
#[derive(Debug)]
pub struct WasmFnCode {
    pub locals: Vec<WasmLocals>,
    pub expr: WasmExpr,
}

/// A data segment. Only active segments are supported: bytes placed into
/// linear memory at a constant offset at instantiation time.
#[derive(Debug)]
pub enum WasmData {
    Active { offset: WasmExpr, bytes: Vec<u8> },
}

/// The aggregate root: a complete module, built by the front end and
/// consumed read-only by the type checker and the binary encoder.
#[derive(Debug)]
pub struct WasmModule {
    pub types: Vec<WasmFnType>,
    pub imports: Vec<WasmImport>,
    pub functions: Vec<u32>,
    pub memories: Vec<WasmMemory>,
    pub globals: Vec<WasmGlobal>,
    pub exports: Vec<WasmExport>,
    pub codes: Vec<WasmFnCode>,
    pub datas: Vec<WasmData>,
}

/// Holds when every lazy constant below this node is resolved, so that the
/// encoder can read it.
pub open spec fn instr_resolved(instr: WasmInstr) -> bool
    decreases instr,
{
    match instr {
        WasmInstr::NoInstr => true,
        WasmInstr::Unreachable => true,
        WasmInstr::Drop { value } => instr_resolved(*value),
        WasmInstr::I32Const { .. } => true,
        WasmInstr::I32ConstLazy { value } => value is Resolved,
        WasmInstr::I64Const { .. } => true,
        WasmInstr::BinaryOp { lhs, rhs, .. } => instr_resolved(*lhs) && instr_resolved(*rhs),
        WasmInstr::Load { address_instr, .. } => instr_resolved(*address_instr),
        WasmInstr::Store { address_instr, value_instr, .. } => instr_resolved(*address_instr)
            && instr_resolved(*value_instr),
        WasmInstr::MemorySize => true,
        WasmInstr::MemoryGrow { size_instr } => instr_resolved(*size_instr),
        WasmInstr::LocalGet { .. } => true,
        WasmInstr::LocalSet { value, .. } => instr_resolved(*value),
        WasmInstr::GlobalGet { .. } => true,
        WasmInstr::GlobalSet { value, .. } => instr_resolved(*value),
        WasmInstr::Return { value } => instr_resolved(*value),
        WasmInstr::Call { args, .. } => forall|i: int|
            0 <= i < args@.len() ==> instr_resolved(#[trigger] args@[i]),
        WasmInstr::If { cond, then_branch, else_branch, .. } => instr_resolved(*cond)
            && instr_resolved(*then_branch) && instr_resolved(*else_branch),
        WasmInstr::IfSingleBranch { cond, then_branch } => instr_resolved(*cond)
            && instr_resolved(*then_branch),
        WasmInstr::MultiValueEmit { values } => forall|i: int|
            0 <= i < values@.len() ==> instr_resolved(#[trigger] values@[i]),
        WasmInstr::Loop { instrs, .. } => forall|i: int|
            0 <= i < instrs@.len() ==> instr_resolved(#[trigger] instrs@[i]),
        WasmInstr::LoopBreak => true,
        WasmInstr::LoopContinue => true,
    }
}

/// Holds when every lazy constant in the sequence is resolved.
pub open spec fn expr_resolved(e: WasmExpr) -> bool {
    forall|i: int| 0 <= i < e.instrs@.len() ==> instr_resolved(#[trigger] e.instrs@[i])
}

/// Holds for the instructions allowed in a constant expression (a global
/// initializer or an active data segment's offset).
pub open spec fn is_const_instr(instr: WasmInstr) -> bool {
    match instr {
        WasmInstr::I32Const { .. } => true,
        WasmInstr::I32ConstLazy { value } => value is Resolved,
        WasmInstr::I64Const { .. } => true,
        _ => false,
    }
}

/// Holds for a constant expression: every instruction produces a constant.
pub open spec fn is_const_expr(e: WasmExpr) -> bool {
    forall|i: int| 0 <= i < e.instrs@.len() ==> is_const_instr(#[trigger] e.instrs@[i])
}

/// The number of nodes in an instruction tree; the termination measure for
/// the tree walks.
pub open spec fn instr_size(instr: WasmInstr) -> nat
    decreases instr, 0int,
{
    1 + match instr {
        WasmInstr::NoInstr => 0,
        WasmInstr::Unreachable => 0,
        WasmInstr::Drop { value } => instr_size(*value),
        WasmInstr::I32Const { .. } => 0,
        WasmInstr::I32ConstLazy { .. } => 0,
        WasmInstr::I64Const { .. } => 0,
        WasmInstr::BinaryOp { lhs, rhs, .. } => instr_size(*lhs) + instr_size(*rhs),
        WasmInstr::Load { address_instr, .. } => instr_size(*address_instr),
        WasmInstr::Store { address_instr, value_instr, .. } => instr_size(*address_instr)
            + instr_size(*value_instr),
        WasmInstr::MemorySize => 0,
        WasmInstr::MemoryGrow { size_instr } => instr_size(*size_instr),
        WasmInstr::LocalGet { .. } => 0,
        WasmInstr::LocalSet { value, .. } => instr_size(*value),
        WasmInstr::GlobalGet { .. } => 0,
        WasmInstr::GlobalSet { value, .. } => instr_size(*value),
        WasmInstr::Return { value } => instr_size(*value),
        WasmInstr::Call { args, .. } => instr_seq_size(args@, args@.len() as int),
        WasmInstr::If { cond, then_branch, else_branch, .. } => instr_size(*cond) + instr_size(
            *then_branch,
        ) + instr_size(*else_branch),
        WasmInstr::IfSingleBranch { cond, then_branch } => instr_size(*cond) + instr_size(
            *then_branch,
        ),
        WasmInstr::MultiValueEmit { values } => instr_seq_size(values@, values@.len() as int),
        WasmInstr::Loop { instrs, .. } => instr_seq_size(instrs@, instrs@.len() as int),
        WasmInstr::LoopBreak => 0,
        WasmInstr::LoopContinue => 0,
    }
}

/// The combined size of the first `n` trees of `s`.
pub open spec fn instr_seq_size(s: Seq<WasmInstr>, n: int) -> nat
    recommends
        n <= s.len(),
    decreases s, n,
{
    if n <= 0 || s.len() < n {
        0
    } else {
        instr_seq_size(s, n - 1) + instr_size(s[n - 1]) + 1
    }
}

/// Each tree in a sequence is strictly smaller than the sequence's
/// combined size.
pub proof fn lemma_instr_seq_size_element(s: Seq<WasmInstr>, n: int, i: int)
    requires
        0 <= i < n <= s.len(),
    ensures
        instr_size(s[i]) < instr_seq_size(s, n),
    decreases n,
{
    if i < n - 1 {
        lemma_instr_seq_size_element(s, n - 1, i);
    }
}

/// An import is well formed when its type index refers into the types
/// sequence.
pub open spec fn import_wf(im: WasmImport, m: WasmModule) -> bool {
    match im.item_desc {
        WasmImportDesc::Func { type_index } => type_index < m.types@.len(),
    }
}

/// An export is well formed when its index is valid within its declared
/// kind's index space. The function index space is the imported functions
/// followed by the locally defined ones.
pub open spec fn export_wf(e: WasmExport, m: WasmModule) -> bool {
    match e.export_type {
        WasmExportType::Func => e.exported_item_index < m.imports@.len() + m.functions@.len(),
        WasmExportType::Mem => e.exported_item_index < m.memories@.len(),
        WasmExportType::Global => e.exported_item_index < m.globals@.len(),
    }
}

/// A global is well formed when its initializer is a resolved constant
/// expression.
pub open spec fn global_wf(g: WasmGlobal) -> bool {
    is_const_expr(g.initial_value) && expr_resolved(g.initial_value)
}

/// A data segment is well formed when its offset is a resolved constant
/// expression.
pub open spec fn data_wf(d: WasmData) -> bool {
    match d {
        WasmData::Active { offset, .. } => is_const_expr(offset) && expr_resolved(offset),
    }
}

/// The module-level invariant the front end must establish before the type
/// checker and the encoder consume the module: every function-to-type-index
/// entry and every import refer into the types sequence, every export's
/// index is valid within its kind's index space, the count of function
/// bodies equals the count of locally defined functions, constant
/// initializers hold only constant-producing instructions, and every lazy
/// constant has been resolved.
pub open spec fn module_wf(m: WasmModule) -> bool {
    &&& forall|i: int| 0 <= i < m.functions@.len() ==> (#[trigger] m.functions@[i]) < m.types@.len()
    &&& forall|i: int| 0 <= i < m.imports@.len() ==> import_wf(#[trigger] m.imports@[i], m)
    &&& forall|i: int| 0 <= i < m.exports@.len() ==> export_wf(#[trigger] m.exports@[i], m)
    &&& m.codes@.len() == m.functions@.len()
    &&& forall|i: int| 0 <= i < m.globals@.len() ==> global_wf(#[trigger] m.globals@[i])
    &&& forall|i: int| 0 <= i < m.codes@.len() ==> expr_resolved((#[trigger] m.codes@[i]).expr)
    &&& forall|i: int| 0 <= i < m.datas@.len() ==> data_wf(#[trigger] m.datas@[i])
}

} // verus!
