//! What a conformant WebAssembly binary reader recovers from the bytes the
//! encoder produces: the magic number and version, the eight framed
//! section bodies, and each section's leading entity count, all equal to
//! those of the source module.

use vstd::prelude::*;
use crate::wasm::{WasmData, WasmExport, WasmExpr, WasmFnCode, WasmFnType, WasmGlobal,
    WasmImport, WasmImportDesc, WasmInstr, WasmLazyI32, WasmLocals, WasmMemory, WasmModule,
    export_type_byte, value_type_byte, is_const_instr, is_const_expr, expr_resolved, global_wf,
    data_wf};
use crate::leb128::{
    leb128_unsigned, leb128_signed, read_leb128_unsigned, read_leb128_signed,
    lemma_read_leb128_unsigned, lemma_read_leb128_signed,
};
use crate::codegen::{
    encode_module, encode_section, magic_and_version, type_section_body, import_section_body,
    function_section_body, memory_section_body, global_section_body, export_section_body,
    code_section_body, data_section_body, encode_fn_types, encode_imports, encode_type_indices,
    encode_memories, encode_globals, encode_exports, encode_codes, encode_datas, encode_export,
    encode_memory, encode_fn_type, encode_import, encode_code, code_entry, encode_instr,
    encode_instr_seq, encode_expr, encode_global, encode_data, encode_locals, value_type_bytes,
    string_bytes,
};

verus! {

/// What a reader takes from the front of `s` for one section: the id
/// byte, the body delimited by the LEB128 byte length, and the remaining
/// bytes.
pub open spec fn read_section(s: Seq<u8>) -> Option<(u8, Seq<u8>, Seq<u8>)> {
    if s.len() == 0 {
        None
    } else {
        match read_leb128_unsigned(s.drop_first()) {
            Some(p) => if 0 <= p.0 <= p.1.len() {
                Some((s[0], p.1.take(p.0), p.1.skip(p.0)))
            } else {
                None
            },
            None => None,
        }
    }
}

/// Reading a framed section back yields its id, its body, and exactly the
/// trailing bytes.
pub proof fn lemma_read_section(id: u8, body: Seq<u8>, rest: Seq<u8>)
    ensures
        read_section(encode_section(id, body) + rest) == Some((id, body, rest)),
{
    let s = encode_section(id, body) + rest;
    assert(s[0] == id);
    assert(s.drop_first() =~= leb128_unsigned(body.len() as int) + (body + rest));
    lemma_read_leb128_unsigned(body.len() as int, body + rest);
    assert((body + rest).take(body.len() as int) =~= body);
    assert((body + rest).skip(body.len() as int) =~= rest);
}

/// The eight section bodies a reader recovers from a complete module
/// binary: magic number and version first, then the sections with ids
/// 1, 2, 3, 5, 6, 7, 10, 11 in order, with nothing left over.
pub open spec fn read_module_sections(s: Seq<u8>) -> Option<Seq<Seq<u8>>> {
    if s.len() < 8 || s.take(8) != magic_and_version() {
        None
    } else {
        match read_section(s.skip(8)) {
            Some((id1, b1, r1)) => if id1 != 0x01 {
                None
            } else {
                match read_section(r1) {
                    Some((id2, b2, r2)) => if id2 != 0x02 {
                        None
                    } else {
                        match read_section(r2) {
                            Some((id3, b3, r3)) => if id3 != 0x03 {
                                None
                            } else {
                                match read_section(r3) {
                                    Some((id4, b4, r4)) => if id4 != 0x05 {
                                        None
                                    } else {
                                        match read_section(r4) {
                                            Some((id5, b5, r5)) => if id5 != 0x06 {
                                                None
                                            } else {
                                                match read_section(r5) {
                                                    Some((id6, b6, r6)) => if id6 != 0x07 {
                                                        None
                                                    } else {
                                                        match read_section(r6) {
                                                            Some((id7, b7, r7)) => if id7 != 0x0a {
                                                                None
                                                            } else {
                                                                match read_section(r7) {
                                                                    Some((id8, b8, r8)) => if id8
                                                                        != 0x0b || r8.len() != 0 {
                                                                        None
                                                                    } else {
                                                                        Some(
                                                                            seq![
                                                                                b1, b2, b3, b4,
                                                                                b5, b6, b7, b8,
                                                                            ],
                                                                        )
                                                                    },
                                                                    None => None,
                                                                }
                                                            },
                                                            None => None,
                                                        }
                                                    },
                                                    None => None,
                                                }
                                            },
                                            None => None,
                                        }
                                    },
                                    None => None,
                                }
                            },
                            None => None,
                        }
                    },
                    None => None,
                }
            },
            None => None,
        }
    }
}

/// The bytes of a module binary from the import section onward.
spec fn tail_from_import(m: WasmModule) -> Seq<u8> {
    encode_section(0x02, import_section_body(m)) + tail_from_function(m)
}

/// The bytes of a module binary from the function section onward.
spec fn tail_from_function(m: WasmModule) -> Seq<u8> {
    encode_section(0x03, function_section_body(m)) + tail_from_memory(m)
}

/// The bytes of a module binary from the memory section onward.
spec fn tail_from_memory(m: WasmModule) -> Seq<u8> {
    encode_section(0x05, memory_section_body(m)) + tail_from_global(m)
}

/// The bytes of a module binary from the global section onward.
spec fn tail_from_global(m: WasmModule) -> Seq<u8> {
    encode_section(0x06, global_section_body(m)) + tail_from_export(m)
}

/// The bytes of a module binary from the export section onward.
spec fn tail_from_export(m: WasmModule) -> Seq<u8> {
    encode_section(0x07, export_section_body(m)) + tail_from_code(m)
}

/// The bytes of a module binary from the code section onward.
spec fn tail_from_code(m: WasmModule) -> Seq<u8> {
    encode_section(0x0a, code_section_body(m)) + tail_from_data(m)
}

/// The bytes of a module binary from the data section onward.
spec fn tail_from_data(m: WasmModule) -> Seq<u8> {
    encode_section(0x0b, data_section_body(m)) + Seq::<u8>::empty()
}

/// The framing of a module binary: the preamble, then the type section
/// followed by the remaining sections.
#[verifier::rlimit(100)]
#[verifier::spinoff_prover]
proof fn lemma_module_framing(m: WasmModule)
    ensures
        encode_module(m).len() >= 8,
        encode_module(m).take(8) == magic_and_version(),
        encode_module(m).skip(8) == encode_section(0x01, type_section_body(m)) + tail_from_import(
            m,
        ),
{
    assert(encode_module(m).take(8) =~= magic_and_version());
    assert(encode_module(m).skip(8) =~= encode_section(0x01, type_section_body(m))
        + tail_from_import(m));
}

/// Each framed section of a module binary reads back as its id, its body,
/// and the bytes of the sections after it.
proof fn lemma_sections_chain(m: WasmModule)
    ensures
        read_section(encode_section(0x01, type_section_body(m)) + tail_from_import(m)) == Some(
            (0x01u8, type_section_body(m), tail_from_import(m)),
        ),
        read_section(tail_from_import(m)) == Some(
            (0x02u8, import_section_body(m), tail_from_function(m)),
        ),
        read_section(tail_from_function(m)) == Some(
            (0x03u8, function_section_body(m), tail_from_memory(m)),
        ),
        read_section(tail_from_memory(m)) == Some(
            (0x05u8, memory_section_body(m), tail_from_global(m)),
        ),
        read_section(tail_from_global(m)) == Some(
            (0x06u8, global_section_body(m), tail_from_export(m)),
        ),
        read_section(tail_from_export(m)) == Some(
            (0x07u8, export_section_body(m), tail_from_code(m)),
        ),
        read_section(tail_from_code(m)) == Some(
            (0x0au8, code_section_body(m), tail_from_data(m)),
        ),
        read_section(tail_from_data(m)) == Some(
            (0x0bu8, data_section_body(m), Seq::<u8>::empty()),
        ),
{
    lemma_read_section(0x01, type_section_body(m), tail_from_import(m));
    lemma_read_section(0x02, import_section_body(m), tail_from_function(m));
    lemma_read_section(0x03, function_section_body(m), tail_from_memory(m));
    lemma_read_section(0x05, memory_section_body(m), tail_from_global(m));
    lemma_read_section(0x06, global_section_body(m), tail_from_export(m));
    lemma_read_section(0x07, export_section_body(m), tail_from_code(m));
    lemma_read_section(0x0a, code_section_body(m), tail_from_data(m));
    lemma_read_section(0x0b, data_section_body(m), Seq::empty());
}

/// Round trip of the framing: reading any produced module binary yields
/// the eight section bodies of the source module, in order.
#[verifier::rlimit(100)]
pub proof fn lemma_encode_module_sections(m: WasmModule)
    ensures
        read_module_sections(encode_module(m)) == Some(
            seq![
                type_section_body(m),
                import_section_body(m),
                function_section_body(m),
                memory_section_body(m),
                global_section_body(m),
                export_section_body(m),
                code_section_body(m),
                data_section_body(m),
            ],
        ),
{
    lemma_module_framing(m);
    lemma_sections_chain(m);
}

/// Round trip of the counts: the first value a reader decodes from each
/// section body is the corresponding entity count of the source module,
/// followed by that section's entity encodings.
pub proof fn lemma_section_counts(m: WasmModule)
    ensures
        read_leb128_unsigned(type_section_body(m)) == Some(
            (m.types@.len() as int, encode_fn_types(m.types@, m.types@.len() as int)),
        ),
        read_leb128_unsigned(import_section_body(m)) == Some(
            (m.imports@.len() as int, encode_imports(m.imports@, m.imports@.len() as int)),
        ),
        read_leb128_unsigned(function_section_body(m)) == Some(
            (
                m.functions@.len() as int,
                encode_type_indices(m.functions@, m.functions@.len() as int),
            ),
        ),
        read_leb128_unsigned(memory_section_body(m)) == Some(
            (m.memories@.len() as int, encode_memories(m.memories@, m.memories@.len() as int)),
        ),
        read_leb128_unsigned(global_section_body(m)) == Some(
            (m.globals@.len() as int, encode_globals(m.globals@, m.globals@.len() as int)),
        ),
        read_leb128_unsigned(export_section_body(m)) == Some(
            (m.exports@.len() as int, encode_exports(m.exports@, m.exports@.len() as int)),
        ),
        read_leb128_unsigned(code_section_body(m)) == Some(
            (m.codes@.len() as int, encode_codes(m.codes@, m.codes@.len() as int)),
        ),
        read_leb128_unsigned(data_section_body(m)) == Some(
            (m.datas@.len() as int, encode_datas(m.datas@, m.datas@.len() as int)),
        ),
{
    lemma_read_leb128_unsigned(
        m.types@.len() as int,
        encode_fn_types(m.types@, m.types@.len() as int),
    );
    lemma_read_leb128_unsigned(
        m.imports@.len() as int,
        encode_imports(m.imports@, m.imports@.len() as int),
    );
    lemma_read_leb128_unsigned(
        m.functions@.len() as int,
        encode_type_indices(m.functions@, m.functions@.len() as int),
    );
    lemma_read_leb128_unsigned(
        m.memories@.len() as int,
        encode_memories(m.memories@, m.memories@.len() as int),
    );
    lemma_read_leb128_unsigned(
        m.globals@.len() as int,
        encode_globals(m.globals@, m.globals@.len() as int),
    );
    lemma_read_leb128_unsigned(
        m.exports@.len() as int,
        encode_exports(m.exports@, m.exports@.len() as int),
    );
    lemma_read_leb128_unsigned(
        m.codes@.len() as int,
        encode_codes(m.codes@, m.codes@.len() as int),
    );
    lemma_read_leb128_unsigned(
        m.datas@.len() as int,
        encode_datas(m.datas@, m.datas@.len() as int),
    );
}

/// The `k` LEB128 values a reader takes from the front of `b`, in order,
/// and the remaining bytes.
pub open spec fn read_index_list(b: Seq<u8>, k: int) -> Option<(Seq<int>, Seq<u8>)>
    decreases k,
{
    if k <= 0 {
        Some((Seq::empty(), b))
    } else {
        match read_leb128_unsigned(b) {
            Some(p) => match read_index_list(p.1, k - 1) {
                Some(q) => Some((seq![p.0] + q.0, q.1)),
                None => None,
            },
            None => None,
        }
    }
}

/// Reading one more value after `k` successful reads extends the list.
proof fn lemma_read_index_list_extend(
    b: Seq<u8>,
    k: int,
    es: Seq<int>,
    r: Seq<u8>,
    v: int,
    r2: Seq<u8>,
)
    requires
        k >= 0,
        read_index_list(b, k) == Some((es, r)),
        read_leb128_unsigned(r) == Some((v, r2)),
    ensures
        read_index_list(b, k + 1) == Some((es.push(v), r2)),
    decreases k,
{
    if k == 0 {
        assert(es.push(v) =~= seq![v] + Seq::<int>::empty());
    } else {
        let p = read_leb128_unsigned(b)->0;
        let q = read_index_list(p.1, k - 1)->0;
        lemma_read_index_list_extend(p.1, k - 1, q.0, r, v, r2);
        assert(es.push(v) =~= seq![p.0] + q.0.push(v));
    }
}

/// The decoded form of the first `n` type indices: each as an integer.
pub open spec fn index_values(s: Seq<u32>, n: int) -> Seq<int> {
    Seq::new(n as nat, |i: int| s[i] as int)
}

/// Reading back an encoded index list yields the encoded values and
/// leaves exactly the trailing bytes.
pub proof fn lemma_read_type_indices(s: Seq<u32>, n: int, rest: Seq<u8>)
    requires
        0 <= n <= s.len(),
    ensures
        read_index_list(encode_type_indices(s, n) + rest, n) == Some((index_values(s, n), rest)),
    decreases n,
{
    if n == 0 {
        assert(encode_type_indices(s, 0) + rest =~= rest);
        assert(index_values(s, 0) =~= Seq::<int>::empty());
    } else {
        let tail = leb128_unsigned(s[n - 1] as int) + rest;
        lemma_read_type_indices(s, n - 1, tail);
        assert(encode_type_indices(s, n) + rest =~= encode_type_indices(s, n - 1) + tail);
        lemma_read_leb128_unsigned(s[n - 1] as int, rest);
        lemma_read_index_list_extend(
            encode_type_indices(s, n - 1) + tail,
            n - 1,
            index_values(s, n - 1),
            tail,
            s[n - 1] as int,
            rest,
        );
        assert(index_values(s, n - 1).push(s[n - 1] as int) =~= index_values(s, n));
    }
}

/// Round trip of the function section: after the count, a reader recovers
/// every type index of the source module, in order.
pub proof fn lemma_function_section_entries(m: WasmModule)
    ensures
        read_index_list(
            encode_type_indices(m.functions@, m.functions@.len() as int),
            m.functions@.len() as int,
        ) == Some((index_values(m.functions@, m.functions@.len() as int), Seq::<u8>::empty())),
{
    lemma_read_type_indices(m.functions@, m.functions@.len() as int, Seq::empty());
    assert(encode_type_indices(m.functions@, m.functions@.len() as int) + Seq::<u8>::empty()
        =~= encode_type_indices(m.functions@, m.functions@.len() as int));
}

/// What a reader takes from the front of `b` for one export: the name
/// bytes delimited by their LEB128 length, the kind tag byte, and the
/// item index, with the remaining bytes.
pub open spec fn read_export(b: Seq<u8>) -> Option<((Seq<u8>, u8, int), Seq<u8>)> {
    match read_leb128_unsigned(b) {
        Some(p) => if 0 <= p.0 && p.0 + 1 <= p.1.len() {
            let name = p.1.take(p.0);
            let kind = p.1[p.0];
            match read_leb128_unsigned(p.1.skip(p.0 + 1)) {
                Some(q) => Some(((name, kind, q.0), q.1)),
                None => None,
            }
        } else {
            None
        },
        None => None,
    }
}

/// Reading one framed export back yields its name bytes, kind byte, and
/// index, and leaves exactly the trailing bytes.
proof fn lemma_read_export(e: WasmExport, rest: Seq<u8>)
    ensures
        read_export(encode_export(e) + rest) == Some(
            (
                (
                    string_bytes(e.export_name),
                    export_type_byte(e.export_type),
                    e.exported_item_index as int,
                ),
                rest,
            ),
        ),
{
    let name = string_bytes(e.export_name);
    let tail = name + seq![export_type_byte(e.export_type)] + leb128_unsigned(
        e.exported_item_index as int,
    ) + rest;
    assert(encode_export(e) + rest =~= leb128_unsigned(name.len() as int) + tail);
    lemma_read_leb128_unsigned(name.len() as int, tail);
    assert(tail.take(name.len() as int) =~= name);
    assert(tail[name.len() as int] == export_type_byte(e.export_type));
    assert(tail.skip(name.len() as int + 1) =~= leb128_unsigned(e.exported_item_index as int)
        + rest);
    lemma_read_leb128_unsigned(e.exported_item_index as int, rest);
}

/// The `k` exports a reader takes from the front of `b`, in order, and
/// the remaining bytes.
pub open spec fn read_export_list(b: Seq<u8>, k: int) -> Option<
    (Seq<(Seq<u8>, u8, int)>, Seq<u8>),
>
    decreases k,
{
    if k <= 0 {
        Some((Seq::empty(), b))
    } else {
        match read_export(b) {
            Some(p) => match read_export_list(p.1, k - 1) {
                Some(q) => Some((seq![p.0] + q.0, q.1)),
                None => None,
            },
            None => None,
        }
    }
}

/// Reading one more export after `k` successful reads extends the list.
proof fn lemma_read_export_list_extend(
    b: Seq<u8>,
    k: int,
    es: Seq<(Seq<u8>, u8, int)>,
    r: Seq<u8>,
    v: (Seq<u8>, u8, int),
    r2: Seq<u8>,
)
    requires
        k >= 0,
        read_export_list(b, k) == Some((es, r)),
        read_export(r) == Some((v, r2)),
    ensures
        read_export_list(b, k + 1) == Some((es.push(v), r2)),
    decreases k,
{
    if k == 0 {
        assert(es.push(v) =~= seq![v] + Seq::<(Seq<u8>, u8, int)>::empty());
    } else {
        let p = read_export(b)->0;
        let q = read_export_list(p.1, k - 1)->0;
        lemma_read_export_list_extend(p.1, k - 1, q.0, r, v, r2);
        assert(es.push(v) =~= seq![p.0] + q.0.push(v));
    }
}

/// The decoded form of the first `n` exports: name bytes, kind byte, and
/// item index of each.
pub open spec fn export_values(s: Seq<WasmExport>, n: int) -> Seq<(Seq<u8>, u8, int)> {
    Seq::new(
        n as nat,
        |i: int|
            (
                string_bytes(s[i].export_name),
                export_type_byte(s[i].export_type),
                s[i].exported_item_index as int,
            ),
    )
}

/// Reading back an encoded export list yields every export's fields and
/// leaves exactly the trailing bytes.
pub proof fn lemma_read_exports(s: Seq<WasmExport>, n: int, rest: Seq<u8>)
    requires
        0 <= n <= s.len(),
    ensures
        read_export_list(encode_exports(s, n) + rest, n) == Some((export_values(s, n), rest)),
    decreases n,
{
    if n == 0 {
        assert(encode_exports(s, 0) + rest =~= rest);
        assert(export_values(s, 0) =~= Seq::<(Seq<u8>, u8, int)>::empty());
    } else {
        let tail = encode_export(s[n - 1]) + rest;
        lemma_read_exports(s, n - 1, tail);
        assert(encode_exports(s, n) + rest =~= encode_exports(s, n - 1) + tail);
        lemma_read_export(s[n - 1], rest);
        lemma_read_export_list_extend(
            encode_exports(s, n - 1) + tail,
            n - 1,
            export_values(s, n - 1),
            tail,
            (
                string_bytes(s[n - 1].export_name),
                export_type_byte(s[n - 1].export_type),
                s[n - 1].exported_item_index as int,
            ),
            rest,
        );
        assert(export_values(s, n - 1).push(
            (
                string_bytes(s[n - 1].export_name),
                export_type_byte(s[n - 1].export_type),
                s[n - 1].exported_item_index as int,
            ),
        ) =~= export_values(s, n));
    }
}

/// Round trip of the export section: after the count, a reader recovers
/// every export's name bytes, kind tag, and item index, in order.
pub proof fn lemma_export_section_entries(m: WasmModule)
    ensures
        read_export_list(
            encode_exports(m.exports@, m.exports@.len() as int),
            m.exports@.len() as int,
        ) == Some((export_values(m.exports@, m.exports@.len() as int), Seq::<u8>::empty())),
{
    lemma_read_exports(m.exports@, m.exports@.len() as int, Seq::empty());
    assert(encode_exports(m.exports@, m.exports@.len() as int) + Seq::<u8>::empty()
        =~= encode_exports(m.exports@, m.exports@.len() as int));
}

/// What a reader takes from the front of `b` for one memory: the limit
/// flag decides whether a maximum follows the minimum.
pub open spec fn read_memory(b: Seq<u8>) -> Option<((int, Option<int>), Seq<u8>)> {
    if b.len() == 0 {
        None
    } else if b[0] == 0x00u8 {
        match read_leb128_unsigned(b.drop_first()) {
            Some(p) => Some(((p.0, None), p.1)),
            None => None,
        }
    } else if b[0] == 0x01u8 {
        match read_leb128_unsigned(b.drop_first()) {
            Some(p) => match read_leb128_unsigned(p.1) {
                Some(q) => Some(((p.0, Some(q.0)), q.1)),
                None => None,
            },
            None => None,
        }
    } else {
        None
    }
}

/// Reading one encoded memory back yields its limits and leaves exactly
/// the trailing bytes.
proof fn lemma_read_memory(mem: WasmMemory, rest: Seq<u8>)
    ensures
        read_memory(encode_memory(mem) + rest) == Some(
            (
                (
                    mem.min as int,
                    match mem.max {
                        Some(mx) => Some(mx as int),
                        None => None,
                    },
                ),
                rest,
            ),
        ),
{
    let b = encode_memory(mem) + rest;
    match mem.max {
        Some(mx) => {
            assert(b[0] == 0x01u8);
            assert(b.drop_first() =~= leb128_unsigned(mem.min as int) + (leb128_unsigned(
                mx as int,
            ) + rest));
            lemma_read_leb128_unsigned(mem.min as int, leb128_unsigned(mx as int) + rest);
            lemma_read_leb128_unsigned(mx as int, rest);
        },
        None => {
            assert(b[0] == 0x00u8);
            assert(b.drop_first() =~= leb128_unsigned(mem.min as int) + rest);
            lemma_read_leb128_unsigned(mem.min as int, rest);
        },
    }
}

/// The `k` memories a reader takes from the front of `b`, in order.
pub open spec fn read_memory_list(b: Seq<u8>, k: int) -> Option<
    (Seq<(int, Option<int>)>, Seq<u8>),
>
    decreases k,
{
    if k <= 0 {
        Some((Seq::empty(), b))
    } else {
        match read_memory(b) {
            Some(p) => match read_memory_list(p.1, k - 1) {
                Some(q) => Some((seq![p.0] + q.0, q.1)),
                None => None,
            },
            None => None,
        }
    }
}

/// Reading one more memory after `k` successful reads extends the list.
proof fn lemma_read_memory_list_extend(
    b: Seq<u8>,
    k: int,
    es: Seq<(int, Option<int>)>,
    r: Seq<u8>,
    v: (int, Option<int>),
    r2: Seq<u8>,
)
    requires
        k >= 0,
        read_memory_list(b, k) == Some((es, r)),
        read_memory(r) == Some((v, r2)),
    ensures
        read_memory_list(b, k + 1) == Some((es.push(v), r2)),
    decreases k,
{
    if k == 0 {
        assert(es.push(v) =~= seq![v] + Seq::<(int, Option<int>)>::empty());
    } else {
        let p = read_memory(b)->0;
        let q = read_memory_list(p.1, k - 1)->0;
        lemma_read_memory_list_extend(p.1, k - 1, q.0, r, v, r2);
        assert(es.push(v) =~= seq![p.0] + q.0.push(v));
    }
}

/// The decoded form of the first `n` memories: minimum and optional
/// maximum page counts.
pub open spec fn memory_values(s: Seq<WasmMemory>, n: int) -> Seq<(int, Option<int>)> {
    Seq::new(
        n as nat,
        |i: int|
            (
                s[i].min as int,
                match s[i].max {
                    Some(mx) => Some(mx as int),
                    None => None,
                },
            ),
    )
}

/// Reading back an encoded memory list yields every memory's limits and
/// leaves exactly the trailing bytes.
pub proof fn lemma_read_memories(s: Seq<WasmMemory>, n: int, rest: Seq<u8>)
    requires
        0 <= n <= s.len(),
    ensures
        read_memory_list(encode_memories(s, n) + rest, n) == Some((memory_values(s, n), rest)),
    decreases n,
{
    if n == 0 {
        assert(encode_memories(s, 0) + rest =~= rest);
        assert(memory_values(s, 0) =~= Seq::<(int, Option<int>)>::empty());
    } else {
        let tail = encode_memory(s[n - 1]) + rest;
        lemma_read_memories(s, n - 1, tail);
        assert(encode_memories(s, n) + rest =~= encode_memories(s, n - 1) + tail);
        lemma_read_memory(s[n - 1], rest);
        lemma_read_memory_list_extend(
            encode_memories(s, n - 1) + tail,
            n - 1,
            memory_values(s, n - 1),
            tail,
            (
                s[n - 1].min as int,
                match s[n - 1].max {
                    Some(mx) => Some(mx as int),
                    None => None,
                },
            ),
            rest,
        );
        assert(memory_values(s, n - 1).push(
            (
                s[n - 1].min as int,
                match s[n - 1].max {
                    Some(mx) => Some(mx as int),
                    None => None,
                },
            ),
        ) =~= memory_values(s, n));
    }
}

/// Round trip of the memory section: after the count, a reader recovers
/// every memory's limits, in order.
pub proof fn lemma_memory_section_entries(m: WasmModule)
    ensures
        read_memory_list(
            encode_memories(m.memories@, m.memories@.len() as int),
            m.memories@.len() as int,
        ) == Some((memory_values(m.memories@, m.memories@.len() as int), Seq::<u8>::empty())),
{
    lemma_read_memories(m.memories@, m.memories@.len() as int, Seq::empty());
    assert(encode_memories(m.memories@, m.memories@.len() as int) + Seq::<u8>::empty()
        =~= encode_memories(m.memories@, m.memories@.len() as int));
}

/// The value-type byte list of the first `n` entries is one byte per
/// entry.
pub proof fn lemma_value_type_bytes_len(s: Seq<crate::wasm::WasmValueType>, n: int)
    requires
        n >= 0,
    ensures
        value_type_bytes(s, n).len() == n,
    decreases n,
{
    if n > 0 {
        lemma_value_type_bytes_len(s, n - 1);
    }
}

/// What a reader takes from the front of `b` for one function type: the
/// tag byte, then the input type bytes and the output type bytes, each
/// delimited by their LEB128 count.
pub open spec fn read_fn_type(b: Seq<u8>) -> Option<((Seq<u8>, Seq<u8>), Seq<u8>)> {
    if b.len() == 0 || b[0] != 0x60u8 {
        None
    } else {
        match read_leb128_unsigned(b.drop_first()) {
            Some(p) => if 0 <= p.0 <= p.1.len() {
                let inputs = p.1.take(p.0);
                match read_leb128_unsigned(p.1.skip(p.0)) {
                    Some(q) => if 0 <= q.0 <= q.1.len() {
                        Some(((inputs, q.1.take(q.0)), q.1.skip(q.0)))
                    } else {
                        None
                    },
                    None => None,
                }
            } else {
                None
            },
            None => None,
        }
    }
}

/// Reading one encoded function type back yields its input and output
/// type bytes and leaves exactly the trailing bytes.
proof fn lemma_read_fn_type(t: WasmFnType, rest: Seq<u8>)
    ensures
        read_fn_type(encode_fn_type(t) + rest) == Some(
            (
                (
                    value_type_bytes(t.inputs@, t.inputs@.len() as int),
                    value_type_bytes(t.outputs@, t.outputs@.len() as int),
                ),
                rest,
            ),
        ),
{
    let ins = value_type_bytes(t.inputs@, t.inputs@.len() as int);
    let outs = value_type_bytes(t.outputs@, t.outputs@.len() as int);
    lemma_value_type_bytes_len(t.inputs@, t.inputs@.len() as int);
    lemma_value_type_bytes_len(t.outputs@, t.outputs@.len() as int);
    let b = encode_fn_type(t) + rest;
    assert(b[0] == 0x60u8);
    let tail1 = ins + (leb128_unsigned(t.outputs@.len() as int) + (outs + rest));
    assert(b.drop_first() =~= leb128_unsigned(t.inputs@.len() as int) + tail1);
    lemma_read_leb128_unsigned(t.inputs@.len() as int, tail1);
    assert(tail1.take(ins.len() as int) =~= ins);
    assert(tail1.skip(ins.len() as int) =~= leb128_unsigned(t.outputs@.len() as int) + (outs
        + rest));
    lemma_read_leb128_unsigned(t.outputs@.len() as int, outs + rest);
    assert((outs + rest).take(outs.len() as int) =~= outs);
    assert((outs + rest).skip(outs.len() as int) =~= rest);
}

/// The `k` function types a reader takes from the front of `b`, in order.
pub open spec fn read_fn_type_list(b: Seq<u8>, k: int) -> Option<
    (Seq<(Seq<u8>, Seq<u8>)>, Seq<u8>),
>
    decreases k,
{
    if k <= 0 {
        Some((Seq::empty(), b))
    } else {
        match read_fn_type(b) {
            Some(p) => match read_fn_type_list(p.1, k - 1) {
                Some(q) => Some((seq![p.0] + q.0, q.1)),
                None => None,
            },
            None => None,
        }
    }
}

/// Reading one more function type after `k` successful reads extends the
/// list.
proof fn lemma_read_fn_type_list_extend(
    b: Seq<u8>,
    k: int,
    es: Seq<(Seq<u8>, Seq<u8>)>,
    r: Seq<u8>,
    v: (Seq<u8>, Seq<u8>),
    r2: Seq<u8>,
)
    requires
        k >= 0,
        read_fn_type_list(b, k) == Some((es, r)),
        read_fn_type(r) == Some((v, r2)),
    ensures
        read_fn_type_list(b, k + 1) == Some((es.push(v), r2)),
    decreases k,
{
    if k == 0 {
        assert(es.push(v) =~= seq![v] + Seq::<(Seq<u8>, Seq<u8>)>::empty());
    } else {
        let p = read_fn_type(b)->0;
        let q = read_fn_type_list(p.1, k - 1)->0;
        lemma_read_fn_type_list_extend(p.1, k - 1, q.0, r, v, r2);
        assert(es.push(v) =~= seq![p.0] + q.0.push(v));
    }
}

/// The decoded form of the first `n` function types: the input and
/// output value-type bytes of each.
pub open spec fn fn_type_values(s: Seq<WasmFnType>, n: int) -> Seq<(Seq<u8>, Seq<u8>)> {
    Seq::new(
        n as nat,
        |i: int|
            (
                value_type_bytes(s[i].inputs@, s[i].inputs@.len() as int),
                value_type_bytes(s[i].outputs@, s[i].outputs@.len() as int),
            ),
    )
}

/// Reading back an encoded type list yields every function type's fields
/// and leaves exactly the trailing bytes.
pub proof fn lemma_read_fn_types(s: Seq<WasmFnType>, n: int, rest: Seq<u8>)
    requires
        0 <= n <= s.len(),
    ensures
        read_fn_type_list(encode_fn_types(s, n) + rest, n) == Some((fn_type_values(s, n), rest)),
    decreases n,
{
    if n == 0 {
        assert(encode_fn_types(s, 0) + rest =~= rest);
        assert(fn_type_values(s, 0) =~= Seq::<(Seq<u8>, Seq<u8>)>::empty());
    } else {
        let tail = encode_fn_type(s[n - 1]) + rest;
        lemma_read_fn_types(s, n - 1, tail);
        assert(encode_fn_types(s, n) + rest =~= encode_fn_types(s, n - 1) + tail);
        lemma_read_fn_type(s[n - 1], rest);
        lemma_read_fn_type_list_extend(
            encode_fn_types(s, n - 1) + tail,
            n - 1,
            fn_type_values(s, n - 1),
            tail,
            (
                value_type_bytes(s[n - 1].inputs@, s[n - 1].inputs@.len() as int),
                value_type_bytes(s[n - 1].outputs@, s[n - 1].outputs@.len() as int),
            ),
            rest,
        );
        assert(fn_type_values(s, n - 1).push(
            (
                value_type_bytes(s[n - 1].inputs@, s[n - 1].inputs@.len() as int),
                value_type_bytes(s[n - 1].outputs@, s[n - 1].outputs@.len() as int),
            ),
        ) =~= fn_type_values(s, n));
    }
}

/// Round trip of the type section: after the count, a reader recovers
/// every function type's input and output type bytes, in order.
pub proof fn lemma_type_section_entries(m: WasmModule)
    ensures
        read_fn_type_list(
            encode_fn_types(m.types@, m.types@.len() as int),
            m.types@.len() as int,
        ) == Some((fn_type_values(m.types@, m.types@.len() as int), Seq::<u8>::empty())),
{
    lemma_read_fn_types(m.types@, m.types@.len() as int, Seq::empty());
    assert(encode_fn_types(m.types@, m.types@.len() as int) + Seq::<u8>::empty()
        =~= encode_fn_types(m.types@, m.types@.len() as int));
}

/// What a reader takes from the front of `b` for one import: the module
/// and item name bytes, each delimited by their LEB128 length, the kind
/// tag byte, and the type index.
pub open spec fn read_import(b: Seq<u8>) -> Option<((Seq<u8>, Seq<u8>, u8, int), Seq<u8>)> {
    match read_leb128_unsigned(b) {
        Some(p) => if 0 <= p.0 <= p.1.len() {
            let module_name = p.1.take(p.0);
            match read_leb128_unsigned(p.1.skip(p.0)) {
                Some(q) => if 0 <= q.0 && q.0 + 1 <= q.1.len() {
                    let item_name = q.1.take(q.0);
                    let kind = q.1[q.0];
                    match read_leb128_unsigned(q.1.skip(q.0 + 1)) {
                        Some(w) => Some(((module_name, item_name, kind, w.0), w.1)),
                        None => None,
                    }
                } else {
                    None
                },
                None => None,
            }
        } else {
            None
        },
        None => None,
    }
}

/// The decoded form of one import.
pub open spec fn import_value(im: WasmImport) -> (Seq<u8>, Seq<u8>, u8, int) {
    match im.item_desc {
        WasmImportDesc::Func { type_index } => (
            string_bytes(im.module_name),
            string_bytes(im.item_name),
            0x00u8,
            type_index as int,
        ),
    }
}

/// Reading one encoded import back yields its names, kind byte, and type
/// index, and leaves exactly the trailing bytes.
proof fn lemma_read_import(im: WasmImport, rest: Seq<u8>)
    ensures
        read_import(encode_import(im) + rest) == Some((import_value(im), rest)),
{
    let mn = string_bytes(im.module_name);
    let inm = string_bytes(im.item_name);
    match im.item_desc {
        WasmImportDesc::Func { type_index } => {
            let tail1 = mn + (leb128_unsigned(inm.len() as int) + (inm + (seq![0x00u8]
                + (leb128_unsigned(type_index as int) + rest))));
            assert(encode_import(im) + rest =~= leb128_unsigned(mn.len() as int) + tail1);
            lemma_read_leb128_unsigned(mn.len() as int, tail1);
            assert(tail1.take(mn.len() as int) =~= mn);
            let tail2 = inm + (seq![0x00u8] + (leb128_unsigned(type_index as int) + rest));
            assert(tail1.skip(mn.len() as int) =~= leb128_unsigned(inm.len() as int) + tail2);
            lemma_read_leb128_unsigned(inm.len() as int, tail2);
            assert(tail2.take(inm.len() as int) =~= inm);
            assert(tail2[inm.len() as int] == 0x00u8);
            assert(tail2.skip(inm.len() as int + 1) =~= leb128_unsigned(type_index as int)
                + rest);
            lemma_read_leb128_unsigned(type_index as int, rest);
        },
    }
}

/// The `k` imports a reader takes from the front of `b`, in order.
pub open spec fn read_import_list(b: Seq<u8>, k: int) -> Option<
    (Seq<(Seq<u8>, Seq<u8>, u8, int)>, Seq<u8>),
>
    decreases k,
{
    if k <= 0 {
        Some((Seq::empty(), b))
    } else {
        match read_import(b) {
            Some(p) => match read_import_list(p.1, k - 1) {
                Some(q) => Some((seq![p.0] + q.0, q.1)),
                None => None,
            },
            None => None,
        }
    }
}

/// Reading one more import after `k` successful reads extends the list.
proof fn lemma_read_import_list_extend(
    b: Seq<u8>,
    k: int,
    es: Seq<(Seq<u8>, Seq<u8>, u8, int)>,
    r: Seq<u8>,
    v: (Seq<u8>, Seq<u8>, u8, int),
    r2: Seq<u8>,
)
    requires
        k >= 0,
        read_import_list(b, k) == Some((es, r)),
        read_import(r) == Some((v, r2)),
    ensures
        read_import_list(b, k + 1) == Some((es.push(v), r2)),
    decreases k,
{
    if k == 0 {
        assert(es.push(v) =~= seq![v] + Seq::<(Seq<u8>, Seq<u8>, u8, int)>::empty());
    } else {
        let p = read_import(b)->0;
        let q = read_import_list(p.1, k - 1)->0;
        lemma_read_import_list_extend(p.1, k - 1, q.0, r, v, r2);
        assert(es.push(v) =~= seq![p.0] + q.0.push(v));
    }
}

/// The decoded form of the first `n` imports.
pub open spec fn import_values(s: Seq<WasmImport>, n: int) -> Seq<(Seq<u8>, Seq<u8>, u8, int)> {
    Seq::new(n as nat, |i: int| import_value(s[i]))
}

/// Reading back an encoded import list yields every import's fields and
/// leaves exactly the trailing bytes.
pub proof fn lemma_read_imports(s: Seq<WasmImport>, n: int, rest: Seq<u8>)
    requires
        0 <= n <= s.len(),
    ensures
        read_import_list(encode_imports(s, n) + rest, n) == Some((import_values(s, n), rest)),
    decreases n,
{
    if n == 0 {
        assert(encode_imports(s, 0) + rest =~= rest);
        assert(import_values(s, 0) =~= Seq::<(Seq<u8>, Seq<u8>, u8, int)>::empty());
    } else {
        let tail = encode_import(s[n - 1]) + rest;
        lemma_read_imports(s, n - 1, tail);
        assert(encode_imports(s, n) + rest =~= encode_imports(s, n - 1) + tail);
        lemma_read_import(s[n - 1], rest);
        lemma_read_import_list_extend(
            encode_imports(s, n - 1) + tail,
            n - 1,
            import_values(s, n - 1),
            tail,
            import_value(s[n - 1]),
            rest,
        );
        assert(import_values(s, n - 1).push(import_value(s[n - 1])) =~= import_values(s, n));
    }
}

/// Round trip of the import section: after the count, a reader recovers
/// every import's names, kind tag, and type index, in order.
pub proof fn lemma_import_section_entries(m: WasmModule)
    ensures
        read_import_list(
            encode_imports(m.imports@, m.imports@.len() as int),
            m.imports@.len() as int,
        ) == Some((import_values(m.imports@, m.imports@.len() as int), Seq::<u8>::empty())),
{
    lemma_read_imports(m.imports@, m.imports@.len() as int, Seq::empty());
    assert(encode_imports(m.imports@, m.imports@.len() as int) + Seq::<u8>::empty()
        =~= encode_imports(m.imports@, m.imports@.len() as int));
}

/// What a reader takes from the front of `b` for one code entry: the
/// inner bytes delimited by their LEB128 byte length.
pub open spec fn read_code(b: Seq<u8>) -> Option<(Seq<u8>, Seq<u8>)> {
    match read_leb128_unsigned(b) {
        Some(p) => if 0 <= p.0 <= p.1.len() {
            Some((p.1.take(p.0), p.1.skip(p.0)))
        } else {
            None
        },
        None => None,
    }
}

/// Reading one encoded code entry back yields its inner bytes and leaves
/// exactly the trailing bytes.
proof fn lemma_read_code(c: WasmFnCode, rest: Seq<u8>)
    ensures
        read_code(encode_code(c) + rest) == Some((code_entry(c), rest)),
{
    assert(encode_code(c) + rest =~= leb128_unsigned(code_entry(c).len() as int) + (code_entry(c)
        + rest));
    lemma_read_leb128_unsigned(code_entry(c).len() as int, code_entry(c) + rest);
    assert((code_entry(c) + rest).take(code_entry(c).len() as int) =~= code_entry(c));
    assert((code_entry(c) + rest).skip(code_entry(c).len() as int) =~= rest);
}

/// The `k` code entries a reader takes from the front of `b`, in order.
pub open spec fn read_code_list(b: Seq<u8>, k: int) -> Option<(Seq<Seq<u8>>, Seq<u8>)>
    decreases k,
{
    if k <= 0 {
        Some((Seq::empty(), b))
    } else {
        match read_code(b) {
            Some(p) => match read_code_list(p.1, k - 1) {
                Some(q) => Some((seq![p.0] + q.0, q.1)),
                None => None,
            },
            None => None,
        }
    }
}

/// Reading one more code entry after `k` successful reads extends the
/// list.
proof fn lemma_read_code_list_extend(
    b: Seq<u8>,
    k: int,
    es: Seq<Seq<u8>>,
    r: Seq<u8>,
    v: Seq<u8>,
    r2: Seq<u8>,
)
    requires
        k >= 0,
        read_code_list(b, k) == Some((es, r)),
        read_code(r) == Some((v, r2)),
    ensures
        read_code_list(b, k + 1) == Some((es.push(v), r2)),
    decreases k,
{
    if k == 0 {
        assert(es.push(v) =~= seq![v] + Seq::<Seq<u8>>::empty());
    } else {
        let p = read_code(b)->0;
        let q = read_code_list(p.1, k - 1)->0;
        lemma_read_code_list_extend(p.1, k - 1, q.0, r, v, r2);
        assert(es.push(v) =~= seq![p.0] + q.0.push(v));
    }
}

/// The decoded form of the first `n` code entries: the inner bytes of
/// each body.
pub open spec fn code_values(s: Seq<WasmFnCode>, n: int) -> Seq<Seq<u8>> {
    Seq::new(n as nat, |i: int| code_entry(s[i]))
}

/// Reading back an encoded code list yields every body's inner bytes and
/// leaves exactly the trailing bytes.
pub proof fn lemma_read_codes(s: Seq<WasmFnCode>, n: int, rest: Seq<u8>)
    requires
        0 <= n <= s.len(),
    ensures
        read_code_list(encode_codes(s, n) + rest, n) == Some((code_values(s, n), rest)),
    decreases n,
{
    if n == 0 {
        assert(encode_codes(s, 0) + rest =~= rest);
        assert(code_values(s, 0) =~= Seq::<Seq<u8>>::empty());
    } else {
        let tail = encode_code(s[n - 1]) + rest;
        lemma_read_codes(s, n - 1, tail);
        assert(encode_codes(s, n) + rest =~= encode_codes(s, n - 1) + tail);
        lemma_read_code(s[n - 1], rest);
        lemma_read_code_list_extend(
            encode_codes(s, n - 1) + tail,
            n - 1,
            code_values(s, n - 1),
            tail,
            code_entry(s[n - 1]),
            rest,
        );
        assert(code_values(s, n - 1).push(code_entry(s[n - 1])) =~= code_values(s, n));
    }
}

/// The opcode byte and integer value of one constant instruction; for any
/// other node, the zero pair.
pub open spec fn const_value(instr: WasmInstr) -> (u8, int) {
    match instr {
        WasmInstr::I32Const { value } => (0x41u8, value as int),
        WasmInstr::I32ConstLazy { value } => match value {
            WasmLazyI32::Resolved { value } => (0x41u8, value as int),
            WasmLazyI32::Unresolved => (0x41u8, 0),
        },
        WasmInstr::I64Const { value } => (0x42u8, value as int),
        _ => (0u8, 0),
    }
}

/// The opcode bytes and values of the constants at positions `i` up to
/// `n` of `s`.
pub open spec fn const_values(s: Seq<WasmInstr>, i: int, n: int) -> Seq<(u8, int)> {
    Seq::new((n - i) as nat, |j: int| const_value(s[i + j]))
}

/// What a reader takes from the front of `b` for one constant
/// instruction: its opcode byte and its signed LEB128 immediate.
pub open spec fn read_const_instr(b: Seq<u8>) -> Option<((u8, int), Seq<u8>)> {
    if b.len() == 0 {
        None
    } else if b[0] == 0x41u8 || b[0] == 0x42u8 {
        match read_leb128_signed(b.drop_first()) {
            Some(p) => Some(((b[0], p.0), p.1)),
            None => None,
        }
    } else {
        None
    }
}

/// Reading one encoded constant back yields its opcode and value and
/// leaves exactly the trailing bytes.
proof fn lemma_read_const_instr(instr: WasmInstr, rest: Seq<u8>)
    requires
        is_const_instr(instr),
    ensures
        read_const_instr(encode_instr(instr) + rest) == Some((const_value(instr), rest)),
{
    let b = encode_instr(instr) + rest;
    match instr {
        WasmInstr::I32Const { value } => {
            assert(b.drop_first() =~= leb128_signed(value as int) + rest);
            lemma_read_leb128_signed(value as int, rest);
        },
        WasmInstr::I32ConstLazy { value } => match value {
            WasmLazyI32::Resolved { value } => {
                assert(b.drop_first() =~= leb128_signed(value as int) + rest);
                lemma_read_leb128_signed(value as int, rest);
            },
            WasmLazyI32::Unresolved => {
                assert(false);
            },
        },
        WasmInstr::I64Const { value } => {
            assert(b.drop_first() =~= leb128_signed(value as int) + rest);
            lemma_read_leb128_signed(value as int, rest);
        },
        _ => {
            assert(false);
        },
    }
}

/// What a reader takes from the front of `b` for a terminated constant
/// expression: constants until the end opcode, and the remaining bytes.
pub open spec fn read_const_expr(b: Seq<u8>) -> Option<(Seq<(u8, int)>, Seq<u8>)>
    decreases b.len(),
{
    if b.len() == 0 {
        None
    } else if b[0] == 0x0bu8 {
        Some((Seq::empty(), b.drop_first()))
    } else {
        match read_const_instr(b) {
            Some(p) => if p.1.len() < b.len() {
                match read_const_expr(p.1) {
                    Some(q) => Some((seq![p.0] + q.0, q.1)),
                    None => None,
                }
            } else {
                None
            },
            None => None,
        }
    }
}

/// The instruction encodings of positions `i` up to `n` of `s`,
/// concatenated from the left.
pub open spec fn encode_instrs_from(s: Seq<WasmInstr>, i: int, n: int) -> Seq<u8>
    decreases n - i,
{
    if i >= n || i < 0 || s.len() < n {
        Seq::empty()
    } else {
        encode_instr(s[i]) + encode_instrs_from(s, i + 1, n)
    }
}

/// Peeling the last instruction off a left-to-right concatenation.
proof fn lemma_encode_instrs_from_snoc(s: Seq<WasmInstr>, i: int, n: int)
    requires
        0 <= i < n <= s.len(),
    ensures
        encode_instrs_from(s, i, n) == encode_instrs_from(s, i, n - 1) + encode_instr(s[n - 1]),
    decreases n - i,
{
    if i < n - 1 {
        lemma_encode_instrs_from_snoc(s, i + 1, n);
        assert(encode_instrs_from(s, i, n) =~= encode_instrs_from(s, i, n - 1) + encode_instr(
            s[n - 1],
        ));
    } else {
        reveal_with_fuel(encode_instrs_from, 2);
        assert(encode_instrs_from(s, n - 1, n) =~= encode_instr(s[n - 1]) + Seq::<u8>::empty());
        assert(encode_instrs_from(s, i, n - 1) =~= Seq::<u8>::empty());
    }
}

/// The two concatenation orders of an instruction sequence agree.
proof fn lemma_encode_instr_seq_from(s: Seq<WasmInstr>, n: int)
    requires
        0 <= n <= s.len(),
    ensures
        encode_instr_seq(s, n) == encode_instrs_from(s, 0, n),
    decreases n,
{
    if n > 0 {
        lemma_encode_instr_seq_from(s, n - 1);
        lemma_encode_instrs_from_snoc(s, 0, n);
    }
}

/// Reading a terminated constant-instruction run back yields the encoded
/// constants and leaves exactly the bytes after the end opcode.
proof fn lemma_read_const_run(s: Seq<WasmInstr>, i: int, n: int, rest: Seq<u8>)
    requires
        0 <= i <= n <= s.len(),
        forall|j: int| i <= j < n ==> is_const_instr(#[trigger] s[j]),
    ensures
        read_const_expr(encode_instrs_from(s, i, n) + (seq![0x0bu8] + rest)) == Some(
            (const_values(s, i, n), rest),
        ),
    decreases n - i,
{
    if i >= n {
        let b = encode_instrs_from(s, i, n) + (seq![0x0bu8] + rest);
        assert(b =~= seq![0x0bu8] + rest);
        assert(b[0] == 0x0bu8);
        assert(b.drop_first() =~= rest);
        assert(const_values(s, i, n) =~= Seq::<(u8, int)>::empty());
    } else {
        let b = encode_instrs_from(s, i, n) + (seq![0x0bu8] + rest);
        let tail = encode_instrs_from(s, i + 1, n) + (seq![0x0bu8] + rest);
        assert(b =~= encode_instr(s[i]) + tail);
        lemma_read_const_instr(s[i], tail);
        lemma_read_const_run(s, i + 1, n, rest);
        // The first byte is a constant opcode, not the end opcode, and the
        // read consumes at least the opcode byte.
        assert(b[0] == 0x41u8 || b[0] == 0x42u8);
        assert(tail.len() < b.len());
        assert(seq![const_value(s[i])] + const_values(s, i + 1, n) =~= const_values(s, i, n));
    }
}

/// Reading back an encoded resolved constant expression yields its
/// constants and leaves exactly the trailing bytes.
pub proof fn lemma_read_const_expr(e: WasmExpr, rest: Seq<u8>)
    requires
        is_const_expr(e),
        expr_resolved(e),
    ensures
        read_const_expr(encode_expr(e) + rest) == Some(
            (const_values(e.instrs@, 0, e.instrs@.len() as int), rest),
        ),
{
    lemma_encode_instr_seq_from(e.instrs@, e.instrs@.len() as int);
    assert(encode_expr(e) + rest =~= encode_instrs_from(e.instrs@, 0, e.instrs@.len() as int) + (
    seq![0x0bu8] + rest));
    lemma_read_const_run(e.instrs@, 0, e.instrs@.len() as int, rest);
}

/// What a reader takes from the front of `b` for one global: the value
/// type byte, the mutability byte, and the constant initializer.
pub open spec fn read_global(b: Seq<u8>) -> Option<((u8, u8, Seq<(u8, int)>), Seq<u8>)> {
    if b.len() < 2 {
        None
    } else {
        match read_const_expr(b.skip(2)) {
            Some(p) => Some(((b[0], b[1], p.0), p.1)),
            None => None,
        }
    }
}

/// The decoded form of one well-formed global.
pub open spec fn global_value(g: WasmGlobal) -> (u8, u8, Seq<(u8, int)>) {
    (
        value_type_byte(g.kind.value_type),
        if g.kind.mutable {
            0x01u8
        } else {
            0x00u8
        },
        const_values(g.initial_value.instrs@, 0, g.initial_value.instrs@.len() as int),
    )
}

/// Reading one encoded global back yields its type, mutability, and
/// initializer constants, and leaves exactly the trailing bytes.
proof fn lemma_read_global(g: WasmGlobal, rest: Seq<u8>)
    requires
        global_wf(g),
    ensures
        read_global(encode_global(g) + rest) == Some((global_value(g), rest)),
{
    let b = encode_global(g) + rest;
    assert(b.skip(2) =~= encode_expr(g.initial_value) + rest);
    lemma_read_const_expr(g.initial_value, rest);
}

/// The `k` globals a reader takes from the front of `b`, in order.
pub open spec fn read_global_list(b: Seq<u8>, k: int) -> Option<
    (Seq<(u8, u8, Seq<(u8, int)>)>, Seq<u8>),
>
    decreases k,
{
    if k <= 0 {
        Some((Seq::empty(), b))
    } else {
        match read_global(b) {
            Some(p) => match read_global_list(p.1, k - 1) {
                Some(q) => Some((seq![p.0] + q.0, q.1)),
                None => None,
            },
            None => None,
        }
    }
}

/// Reading one more global after `k` successful reads extends the list.
proof fn lemma_read_global_list_extend(
    b: Seq<u8>,
    k: int,
    es: Seq<(u8, u8, Seq<(u8, int)>)>,
    r: Seq<u8>,
    v: (u8, u8, Seq<(u8, int)>),
    r2: Seq<u8>,
)
    requires
        k >= 0,
        read_global_list(b, k) == Some((es, r)),
        read_global(r) == Some((v, r2)),
    ensures
        read_global_list(b, k + 1) == Some((es.push(v), r2)),
    decreases k,
{
    if k == 0 {
        assert(es.push(v) =~= seq![v] + Seq::<(u8, u8, Seq<(u8, int)>)>::empty());
    } else {
        let p = read_global(b)->0;
        let q = read_global_list(p.1, k - 1)->0;
        lemma_read_global_list_extend(p.1, k - 1, q.0, r, v, r2);
        assert(es.push(v) =~= seq![p.0] + q.0.push(v));
    }
}

/// The decoded form of the first `n` globals.
pub open spec fn global_values(s: Seq<WasmGlobal>, n: int) -> Seq<(u8, u8, Seq<(u8, int)>)> {
    Seq::new(n as nat, |i: int| global_value(s[i]))
}

/// Reading back an encoded global list yields every global's fields and
/// leaves exactly the trailing bytes.
pub proof fn lemma_read_globals(s: Seq<WasmGlobal>, n: int, rest: Seq<u8>)
    requires
        0 <= n <= s.len(),
        forall|i: int| 0 <= i < n ==> global_wf(#[trigger] s[i]),
    ensures
        read_global_list(encode_globals(s, n) + rest, n) == Some((global_values(s, n), rest)),
    decreases n,
{
    if n == 0 {
        assert(encode_globals(s, 0) + rest =~= rest);
        assert(global_values(s, 0) =~= Seq::<(u8, u8, Seq<(u8, int)>)>::empty());
    } else {
        let tail = encode_global(s[n - 1]) + rest;
        lemma_read_globals(s, n - 1, tail);
        assert(encode_globals(s, n) + rest =~= encode_globals(s, n - 1) + tail);
        lemma_read_global(s[n - 1], rest);
        lemma_read_global_list_extend(
            encode_globals(s, n - 1) + tail,
            n - 1,
            global_values(s, n - 1),
            tail,
            global_value(s[n - 1]),
            rest,
        );
        assert(global_values(s, n - 1).push(global_value(s[n - 1])) =~= global_values(s, n));
    }
}

/// Round trip of the global section of a well-formed module: after the
/// count, a reader recovers every global's type, mutability, and
/// initializer constants, in order.
pub proof fn lemma_global_section_entries(m: WasmModule)
    requires
        forall|i: int| 0 <= i < m.globals@.len() ==> global_wf(#[trigger] m.globals@[i]),
    ensures
        read_global_list(
            encode_globals(m.globals@, m.globals@.len() as int),
            m.globals@.len() as int,
        ) == Some((global_values(m.globals@, m.globals@.len() as int), Seq::<u8>::empty())),
{
    lemma_read_globals(m.globals@, m.globals@.len() as int, Seq::empty());
    assert(encode_globals(m.globals@, m.globals@.len() as int) + Seq::<u8>::empty()
        =~= encode_globals(m.globals@, m.globals@.len() as int));
}

/// What a reader takes from the front of `b` for one active data segment:
/// the zero flag, the constant offset expression, and the raw bytes
/// delimited by their LEB128 length.
pub open spec fn read_data(b: Seq<u8>) -> Option<((Seq<(u8, int)>, Seq<u8>), Seq<u8>)> {
    if b.len() == 0 || b[0] != 0x00u8 {
        None
    } else {
        match read_const_expr(b.drop_first()) {
            Some(p) => match read_leb128_unsigned(p.1) {
                Some(q) => if 0 <= q.0 <= q.1.len() {
                    Some(((p.0, q.1.take(q.0)), q.1.skip(q.0)))
                } else {
                    None
                },
                None => None,
            },
            None => None,
        }
    }
}

/// The decoded form of one well-formed data segment.
pub open spec fn data_value(d: WasmData) -> (Seq<(u8, int)>, Seq<u8>) {
    match d {
        WasmData::Active { offset, bytes } => (
            const_values(offset.instrs@, 0, offset.instrs@.len() as int),
            bytes@,
        ),
    }
}

/// Reading one encoded data segment back yields its offset constants and
/// raw bytes, and leaves exactly the trailing bytes.
proof fn lemma_read_data(d: WasmData, rest: Seq<u8>)
    requires
        data_wf(d),
    ensures
        read_data(encode_data(d) + rest) == Some((data_value(d), rest)),
{
    let b = encode_data(d) + rest;
    match d {
        WasmData::Active { offset, bytes } => {
            assert(b[0] == 0x00u8);
            let tail = leb128_unsigned(bytes@.len() as int) + (bytes@ + rest);
            assert(b.drop_first() =~= encode_expr(offset) + tail);
            lemma_read_const_expr(offset, tail);
            lemma_read_leb128_unsigned(bytes@.len() as int, bytes@ + rest);
            assert((bytes@ + rest).take(bytes@.len() as int) =~= bytes@);
            assert((bytes@ + rest).skip(bytes@.len() as int) =~= rest);
        },
    }
}

/// The `k` data segments a reader takes from the front of `b`, in order.
pub open spec fn read_data_list(b: Seq<u8>, k: int) -> Option<
    (Seq<(Seq<(u8, int)>, Seq<u8>)>, Seq<u8>),
>
    decreases k,
{
    if k <= 0 {
        Some((Seq::empty(), b))
    } else {
        match read_data(b) {
            Some(p) => match read_data_list(p.1, k - 1) {
                Some(q) => Some((seq![p.0] + q.0, q.1)),
                None => None,
            },
            None => None,
        }
    }
}

/// Reading one more data segment after `k` successful reads extends the
/// list.
proof fn lemma_read_data_list_extend(
    b: Seq<u8>,
    k: int,
    es: Seq<(Seq<(u8, int)>, Seq<u8>)>,
    r: Seq<u8>,
    v: (Seq<(u8, int)>, Seq<u8>),
    r2: Seq<u8>,
)
    requires
        k >= 0,
        read_data_list(b, k) == Some((es, r)),
        read_data(r) == Some((v, r2)),
    ensures
        read_data_list(b, k + 1) == Some((es.push(v), r2)),
    decreases k,
{
    if k == 0 {
        assert(es.push(v) =~= seq![v] + Seq::<(Seq<(u8, int)>, Seq<u8>)>::empty());
    } else {
        let p = read_data(b)->0;
        let q = read_data_list(p.1, k - 1)->0;
        lemma_read_data_list_extend(p.1, k - 1, q.0, r, v, r2);
        assert(es.push(v) =~= seq![p.0] + q.0.push(v));
    }
}

/// The decoded form of the first `n` data segments.
pub open spec fn data_values(s: Seq<WasmData>, n: int) -> Seq<(Seq<(u8, int)>, Seq<u8>)> {
    Seq::new(n as nat, |i: int| data_value(s[i]))
}

/// Reading back an encoded data list yields every segment's fields and
/// leaves exactly the trailing bytes.
pub proof fn lemma_read_datas(s: Seq<WasmData>, n: int, rest: Seq<u8>)
    requires
        0 <= n <= s.len(),
        forall|i: int| 0 <= i < n ==> data_wf(#[trigger] s[i]),
    ensures
        read_data_list(encode_datas(s, n) + rest, n) == Some((data_values(s, n), rest)),
    decreases n,
{
    if n == 0 {
        assert(encode_datas(s, 0) + rest =~= rest);
        assert(data_values(s, 0) =~= Seq::<(Seq<(u8, int)>, Seq<u8>)>::empty());
    } else {
        let tail = encode_data(s[n - 1]) + rest;
        lemma_read_datas(s, n - 1, tail);
        assert(encode_datas(s, n) + rest =~= encode_datas(s, n - 1) + tail);
        lemma_read_data(s[n - 1], rest);
        lemma_read_data_list_extend(
            encode_datas(s, n - 1) + tail,
            n - 1,
            data_values(s, n - 1),
            tail,
            data_value(s[n - 1]),
            rest,
        );
        assert(data_values(s, n - 1).push(data_value(s[n - 1])) =~= data_values(s, n));
    }
}

/// Round trip of the data section of a well-formed module: after the
/// count, a reader recovers every segment's offset constants and raw
/// bytes, in order.
pub proof fn lemma_data_section_entries(m: WasmModule)
    requires
        forall|i: int| 0 <= i < m.datas@.len() ==> data_wf(#[trigger] m.datas@[i]),
    ensures
        read_data_list(encode_datas(m.datas@, m.datas@.len() as int), m.datas@.len() as int)
            == Some((data_values(m.datas@, m.datas@.len() as int), Seq::<u8>::empty())),
{
    lemma_read_datas(m.datas@, m.datas@.len() as int, Seq::empty());
    assert(encode_datas(m.datas@, m.datas@.len() as int) + Seq::<u8>::empty() =~= encode_datas(
        m.datas@,
        m.datas@.len() as int,
    ));
}

/// Round trip of the code section: after the count, a reader recovers
/// every function body's inner bytes, in order.
pub proof fn lemma_code_section_entries(m: WasmModule)
    ensures
        read_code_list(encode_codes(m.codes@, m.codes@.len() as int), m.codes@.len() as int)
            == Some((code_values(m.codes@, m.codes@.len() as int), Seq::<u8>::empty())),
{
    lemma_read_codes(m.codes@, m.codes@.len() as int, Seq::empty());
    assert(encode_codes(m.codes@, m.codes@.len() as int) + Seq::<u8>::empty() =~= encode_codes(
        m.codes@,
        m.codes@.len() as int,
    ));
}

/// What a reader takes from the front of `b` for one local declaration:
/// the run count and the type byte.
pub open spec fn read_local_decl(b: Seq<u8>) -> Option<((int, u8), Seq<u8>)> {
    match read_leb128_unsigned(b) {
        Some(p) => if p.1.len() >= 1 {
            Some(((p.0, p.1[0]), p.1.drop_first()))
        } else {
            None
        },
        None => None,
    }
}

/// The `k` local declarations a reader takes from the front of `b`.
pub open spec fn read_local_list(b: Seq<u8>, k: int) -> Option<(Seq<(int, u8)>, Seq<u8>)>
    decreases k,
{
    if k <= 0 {
        Some((Seq::empty(), b))
    } else {
        match read_local_decl(b) {
            Some(p) => match read_local_list(p.1, k - 1) {
                Some(q) => Some((seq![p.0] + q.0, q.1)),
                None => None,
            },
            None => None,
        }
    }
}

/// Reading one encoded local declaration back yields its count and type
/// byte and leaves exactly the trailing bytes.
proof fn lemma_read_local_decl(l: WasmLocals, rest: Seq<u8>)
    ensures
        read_local_decl(leb128_unsigned(l.count as int) + (seq![value_type_byte(l.value_type)]
            + rest)) == Some(((l.count as int, value_type_byte(l.value_type)), rest)),
{
    lemma_read_leb128_unsigned(l.count as int, seq![value_type_byte(l.value_type)] + rest);
    assert((seq![value_type_byte(l.value_type)] + rest).drop_first() =~= rest);
}

/// Reading one more local declaration after `k` successful reads extends
/// the list.
proof fn lemma_read_local_list_extend(
    b: Seq<u8>,
    k: int,
    es: Seq<(int, u8)>,
    r: Seq<u8>,
    v: (int, u8),
    r2: Seq<u8>,
)
    requires
        k >= 0,
        read_local_list(b, k) == Some((es, r)),
        read_local_decl(r) == Some((v, r2)),
    ensures
        read_local_list(b, k + 1) == Some((es.push(v), r2)),
    decreases k,
{
    if k == 0 {
        assert(es.push(v) =~= seq![v] + Seq::<(int, u8)>::empty());
    } else {
        let p = read_local_decl(b)->0;
        let q = read_local_list(p.1, k - 1)->0;
        lemma_read_local_list_extend(p.1, k - 1, q.0, r, v, r2);
        assert(es.push(v) =~= seq![p.0] + q.0.push(v));
    }
}

/// The decoded form of the first `n` local declarations.
pub open spec fn local_values(s: Seq<WasmLocals>, n: int) -> Seq<(int, u8)> {
    Seq::new(n as nat, |i: int| (s[i].count as int, value_type_byte(s[i].value_type)))
}

/// Reading back an encoded local-declaration list yields every run's
/// count and type byte and leaves exactly the trailing bytes.
pub proof fn lemma_read_locals(s: Seq<WasmLocals>, n: int, rest: Seq<u8>)
    requires
        0 <= n <= s.len(),
    ensures
        read_local_list(encode_locals(s, n) + rest, n) == Some((local_values(s, n), rest)),
    decreases n,
{
    if n == 0 {
        assert(encode_locals(s, 0) + rest =~= rest);
        assert(local_values(s, 0) =~= Seq::<(int, u8)>::empty());
    } else {
        let tail = leb128_unsigned(s[n - 1].count as int) + (seq![
            value_type_byte(s[n - 1].value_type),
        ] + rest);
        lemma_read_locals(s, n - 1, tail);
        assert(encode_locals(s, n) + rest =~= encode_locals(s, n - 1) + tail);
        lemma_read_local_decl(s[n - 1], rest);
        lemma_read_local_list_extend(
            encode_locals(s, n - 1) + tail,
            n - 1,
            local_values(s, n - 1),
            tail,
            (s[n - 1].count as int, value_type_byte(s[n - 1].value_type)),
            rest,
        );
        assert(local_values(s, n - 1).push(
            (s[n - 1].count as int, value_type_byte(s[n - 1].value_type)),
        ) =~= local_values(s, n));
    }
}

/// Round trip of one code entry's structure: the reader recovers the
/// local-declaration count, every declaration's count and type byte, and
/// is left with exactly the body expression's bytes.
pub proof fn lemma_code_entry_fields(c: WasmFnCode)
    ensures
        read_leb128_unsigned(code_entry(c)) == Some(
            (
                c.locals@.len() as int,
                encode_locals(c.locals@, c.locals@.len() as int) + encode_expr(c.expr),
            ),
        ),
        read_local_list(
            encode_locals(c.locals@, c.locals@.len() as int) + encode_expr(c.expr),
            c.locals@.len() as int,
        ) == Some((local_values(c.locals@, c.locals@.len() as int), encode_expr(c.expr))),
{
    lemma_read_leb128_unsigned(
        c.locals@.len() as int,
        encode_locals(c.locals@, c.locals@.len() as int) + encode_expr(c.expr),
    );
    assert(code_entry(c) =~= leb128_unsigned(c.locals@.len() as int) + (encode_locals(
        c.locals@,
        c.locals@.len() as int,
    ) + encode_expr(c.expr)));
    lemma_read_locals(c.locals@, c.locals@.len() as int, encode_expr(c.expr));
}

} // verus!
