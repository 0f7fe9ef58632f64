//! Assembling the parts of a compiled program into its bytecode.
//!
//! The bytecode holds, in order: a two-byte header; the constants block;
//! a header; the types, list kinds and functions information blocks (each a
//! count, one entry per item and a header); the start position of each
//! function, then a header; the start position of the entry function, then
//! a header; and the code of the functions, with every call placeholder
//! holding the start position of its callee. Positions are two big-endian
//! bytes; names are a two-byte length and UTF-8 bytes.
use vstd::prelude::*;
use vstd::utf8::encode_utf8;

use crate::codegen::encoding::{push_bytes, push_u16, u16_be};
use crate::codegen::generator::FunctionBytecode;
use crate::codegen::metadata::{CustomTypesMetadataTable, ListKindsMetadataTable, SymbolModel};
use crate::symbols::{qualified_text, SymbolFunc, SymbolType};
use crate::text::string_from_chars;
use crate::types::type_display;

verus! {

/// The two bytes that separate the blocks of a program.
pub open spec fn header_bytes() -> Seq<u8> {
    seq![0xffu8, 0xffu8]
}

/// A name: its UTF-8 length in two bytes, then its UTF-8 bytes.
pub open spec fn str_entry(s: Seq<char>) -> Seq<u8> {
    u16_be(encode_utf8(s).len() as u16) + encode_utf8(s)
}

/// A pointer mapping: its length in one byte, then each position as one byte.
pub open spec fn map_entry(m: Seq<usize>) -> Seq<u8> {
    seq![m.len() as u8] + m.map_values(|x: usize| x as u8)
}

/// One item of an information block: name, size in two bytes, pointer mapping.
pub open spec fn info_entry(name: Seq<char>, size: usize, m: Seq<usize>) -> Seq<u8> {
    str_entry(name) + u16_be(size as u16) + map_entry(m)
}

/// An information block: the number of items in one byte, the items, a header.
pub open spec fn info_block(entries: Seq<Seq<u8>>) -> Seq<u8> {
    seq![entries.len() as u8] + entries.flatten() + header_bytes()
}

/// Some entry has the value `i`.
pub open spec fn has_value<K>(e: Seq<(K, int)>, i: int) -> bool {
    exists|j: int| 0 <= j < e.len() && #[trigger] e[j].1 == i
}

/// Every position below `n` is the value of exactly one entry.
pub open spec fn values_cover<K>(e: Seq<(K, int)>, n: int) -> bool {
    &&& forall|i: int| 0 <= i < n ==> #[trigger] has_value(e, i)
    &&& forall|j: int, k: int| 0 <= j < e.len() && 0 <= k < e.len() && e[j].1 == e[k].1 ==> j == k
}

/// The key of the entry whose value is `i`.
pub open spec fn key_of_value<K>(e: Seq<(K, int)>, i: int) -> K {
    e[choose|j: int| 0 <= j < e.len() && e[j].1 == i].0
}

/// The information block of the user types, in position order.
pub open spec fn types_block(t: CustomTypesMetadataTable) -> Seq<u8> {
    info_block(
        Seq::new(
            t.metadata@.len(),
            |i: int|
                {
                    let k = key_of_value(t.entries(), i);
                    info_entry(qualified_text(k.0, k.1), t.metadata@[i].size as usize, t.metadata@[i].pointer_mapping@)
                },
        ),
    )
}

/// The information block of the list kinds, in position order.
pub open spec fn lists_block(l: ListKindsMetadataTable) -> Seq<u8> {
    info_block(
        Seq::new(
            l.metadata@.len(),
            |i: int| info_entry(type_display(l.indexes@[i].0@), l.metadata@[i].size as usize, l.metadata@[i].pointer_mapping@),
        ),
    )
}

/// The information block of the functions: name, size of the arguments and
/// their pointer mapping.
pub open spec fn functions_block(fs: Seq<FunctionBytecode>) -> Seq<u8> {
    info_block(
        fs.map_values(|f: FunctionBytecode| info_entry(qualified_text(f.name@.0, f.name@.1), f.args_size, f.args_pointer_mapping@)),
    )
}

/// Total length of the code of `fs`.
pub open spec fn code_len(fs: Seq<FunctionBytecode>) -> nat
    decreases fs.len(),
{
    if fs.len() == 0 {
        0
    } else {
        code_len(fs.drop_last()) + fs.last().bytecode@.len()
    }
}

/// Position of the last function of `fs` named `name`.
pub open spec fn last_named(fs: Seq<FunctionBytecode>, name: SymbolModel) -> Option<int>
    decreases fs.len(),
{
    if fs.len() == 0 {
        None
    } else if fs.last().name@ == name {
        Some(fs.len() - 1)
    } else {
        last_named(fs.drop_last(), name)
    }
}

/// Start of the code of the function `name` when the code of all functions
/// follows position `base`; a name given twice means its last function.
pub open spec fn start_of(fs: Seq<FunctionBytecode>, base: int, name: SymbolModel) -> int {
    base + code_len(fs.take(last_named(fs, name).unwrap()))
}

/// `code` with each placeholder, in order, overwritten by the two bytes of
/// the start position of its callee.
pub open spec fn fill_calls(code: Seq<u8>, calls: Seq<(usize, SymbolModel)>, fs: Seq<FunctionBytecode>, base: int) -> Seq<u8>
    decreases calls.len(),
{
    if calls.len() == 0 {
        code
    } else {
        let done = fill_calls(code, calls.drop_last(), fs, base);
        let (pos, callee) = calls.last();
        let v = u16_be(start_of(fs, base, callee) as u16);
        done.update(pos as int, v[0]).update(pos + 1, v[1])
    }
}

/// The bytes before the start positions of the functions.
pub open spec fn program_prefix(
    constants: Seq<u8>,
    types: CustomTypesMetadataTable,
    lists: ListKindsMetadataTable,
    fs: Seq<FunctionBytecode>,
) -> Seq<u8> {
    header_bytes() + constants + header_bytes() + types_block(types) + lists_block(lists) + functions_block(fs)
}

/// Where the code of the functions starts.
pub open spec fn code_base(
    constants: Seq<u8>,
    types: CustomTypesMetadataTable,
    lists: ListKindsMetadataTable,
    fs: Seq<FunctionBytecode>,
) -> int {
    (program_prefix(constants, types, lists, fs).len() + 2 * fs.len() + 6) as int
}

/// The whole program (see the module documentation).
pub open spec fn assembled(
    constants: Seq<u8>,
    types: CustomTypesMetadataTable,
    lists: ListKindsMetadataTable,
    fs: Seq<FunctionBytecode>,
    entry: SymbolModel,
) -> Seq<u8> {
    let base = code_base(constants, types, lists, fs);
    program_prefix(constants, types, lists, fs)
        + fs.map_values(|f: FunctionBytecode| u16_be(start_of(fs, base, f.name@) as u16)).flatten()
        + header_bytes()
        + u16_be(start_of(fs, base, entry) as u16)
        + header_bytes()
        + fs.map_values(|f: FunctionBytecode| fill_calls(f.bytecode@, f.calls(), fs, base)).flatten()
}

/// What assembling needs: each position of the types table has exactly one
/// name, every callee and the entry are among the functions, and every call
/// placeholder lies within its function's code.
pub open spec fn can_assemble(
    types: CustomTypesMetadataTable,
    lists: ListKindsMetadataTable,
    fs: Seq<FunctionBytecode>,
    entry: SymbolModel,
) -> bool {
    &&& types.wf()
    &&& values_cover(types.entries(), types.metadata@.len() as int)
    &&& lists.wf()
    &&& last_named(fs, entry) is Some
    &&& forall|k: int, c: int| 0 <= k < fs.len() && 0 <= c < fs[k].calls().len() ==> {
        &&& (#[trigger] fs[k].calls()[c]).0 + 1 < fs[k].bytecode@.len()
        &&& last_named(fs, fs[k].calls()[c].1) is Some
    }
}


pub proof fn lemma_code_len_prefix(fs: Seq<FunctionBytecode>, k: int)
    requires
        0 <= k <= fs.len(),
    ensures
        code_len(fs.take(k)) <= code_len(fs),
    decreases fs.len(),
{
    if k < fs.len() {
        assert(fs.drop_last().take(k) =~= fs.take(k));
        lemma_code_len_prefix(fs.drop_last(), k);
    } else {
        assert(fs.take(k) =~= fs);
    }
}

pub proof fn lemma_last_named(fs: Seq<FunctionBytecode>, name: SymbolModel)
    ensures
        last_named(fs, name) matches Some(k) ==> 0 <= k < fs.len() && fs[k].name@ == name,
    decreases fs.len(),
{
    if fs.len() > 0 && fs.last().name@ != name {
        lemma_last_named(fs.drop_last(), name);
    }
}

/// Appends a name: its UTF-8 length in two bytes, then its UTF-8 bytes.
fn push_str(bytecode: &mut Vec<u8>, s: &str)
    ensures
        final(bytecode)@ == old(bytecode)@ + str_entry(s@),
{
    let bytes = s.as_bytes();
    push_u16(bytecode, bytes.len() as u16);
    push_bytes(bytecode, bytes);
    assert(final(bytecode)@ =~= old(bytecode)@ + str_entry(s@));
}

/// Appends a pointer mapping: its length, then each position, one byte each.
fn push_pointers_map(bytecode: &mut Vec<u8>, pointers_map: &[usize])
    ensures
        final(bytecode)@ == old(bytecode)@ + map_entry(pointers_map@),
{
    bytecode.push(pointers_map.len() as u8);
    let mut i: usize = 0;
    while i < pointers_map.len()
        invariant
            i <= pointers_map@.len(),
            bytecode@ == old(bytecode)@ + seq![pointers_map@.len() as u8] + pointers_map@.take(i as int).map_values(|x: usize| x as u8),
        decreases pointers_map@.len() - i,
    {
        bytecode.push(pointers_map[i] as u8);
        i = i + 1;
        assert(bytecode@ =~= old(bytecode)@ + seq![pointers_map@.len() as u8] + pointers_map@.take(i as int).map_values(|x: usize| x as u8));
    }
    assert(pointers_map@.take(pointers_map@.len() as int) =~= pointers_map@);
    assert(bytecode@ =~= old(bytecode)@ + map_entry(pointers_map@));
}

/// Appends the two big-endian bytes of `value` taken modulo 65536.
fn push_usize_as_u16(bytecode: &mut Vec<u8>, value: usize)
    ensures
        final(bytecode)@ == old(bytecode)@ + u16_be(value as u16),
{
    push_u16(bytecode, value as u16);
}

fn push_info_entry(bytecode: &mut Vec<u8>, name: &[char], size: usize, pointers_map: &[usize])
    ensures
        final(bytecode)@ == old(bytecode)@ + info_entry(name@, size, pointers_map@),
{
    let text = string_from_chars(name);
    push_str(bytecode, text.as_str());
    push_usize_as_u16(bytecode, size);
    push_pointers_map(bytecode, pointers_map);
    assert(final(bytecode)@ =~= old(bytecode)@ + info_entry(name@, size, pointers_map@));
}

fn push_header(bytecode: &mut Vec<u8>)
    ensures
        final(bytecode)@ == old(bytecode)@ + header_bytes(),
{
    bytecode.push(0xffu8);
    bytecode.push(0xffu8);
    assert(final(bytecode)@ =~= old(bytecode)@ + header_bytes());
}

/// The type whose position in the table is `value`.
fn get_by_value(indexes: &Vec<(SymbolType, usize)>, value: usize) -> (r: &SymbolType)
    requires
        has_value(indexes@.map_values(|p: (SymbolType, usize)| (p.0@, p.1 as int)), value as int),
        values_cover(indexes@.map_values(|p: (SymbolType, usize)| (p.0@, p.1 as int)), value as int + 1),
    ensures
        r@ == key_of_value(indexes@.map_values(|p: (SymbolType, usize)| (p.0@, p.1 as int)), value as int),
{
    let ghost e = indexes@.map_values(|p: (SymbolType, usize)| (p.0@, p.1 as int));
    let mut j: usize = 0;
    while j < indexes.len()
        invariant
            j <= indexes@.len(),
            e == indexes@.map_values(|p: (SymbolType, usize)| (p.0@, p.1 as int)),
            forall|k: int| 0 <= k < j ==> e[k].1 != value,
            has_value(e, value as int),
            values_cover(e, value as int + 1),
        decreases indexes@.len() - j,
    {
        if indexes[j].1 == value {
            proof {
                let c = choose|k: int| 0 <= k < e.len() && e[k].1 == value as int;
                assert(0 <= c < e.len() && e[c].1 == value as int);
                assert(e[j as int].1 == value);
                assert(c == j);
            }
            return &indexes[j].0;
        }
        j = j + 1;
    }
    proof {
        let c = choose|k: int| 0 <= k < e.len() && e[k].1 == value as int;
        assert(e[c].1 == value);
    }
    &indexes[0].0
}


/// The information block of the user types.
fn types_info(table: &CustomTypesMetadataTable) -> (r: Vec<u8>)
    requires
        table.wf(),
        values_cover(table.entries(), table.metadata@.len() as int),
    ensures
        r@ == types_block(*table),
{
    let ghost entries = Seq::new(
        table.metadata@.len(),
        |i: int|
            {
                let k = key_of_value(table.entries(), i);
                info_entry(qualified_text(k.0, k.1), table.metadata@[i].size as usize, table.metadata@[i].pointer_mapping@)
            },
    );
    let mut block: Vec<u8> = Vec::new();
    let mut i: usize = 0;
    while i < table.metadata.len()
        invariant
            i <= table.metadata@.len(),
            table.wf(),
            values_cover(table.entries(), table.metadata@.len() as int),
            entries.len() == table.metadata@.len(),
            forall|j: int| 0 <= j < entries.len() ==> #[trigger] entries[j] == {
                let k = key_of_value(table.entries(), j);
                info_entry(qualified_text(k.0, k.1), table.metadata@[j].size as usize, table.metadata@[j].pointer_mapping@)
            },
            block@ == entries.take(i as int).flatten(),
        decreases table.metadata@.len() - i,
    {
        assert(has_value(table.entries(), i as int));
        let type_symbol = get_by_value(&table.indexes, i);
        let name = type_symbol.text();
        let meta = &table.metadata[i];
        push_info_entry(&mut block, name.as_slice(), meta.size as usize, meta.pointer_mapping.as_slice());
        proof {
            assert(entries.take(i + 1) =~= entries.take(i as int).push(entries[i as int]));
            entries.take(i as int).lemma_flatten_push(entries[i as int]);
        }
        i = i + 1;
    }
    assert(entries.take(entries.len() as int) =~= entries);
    let mut r: Vec<u8> = Vec::new();
    r.push(table.metadata.len() as u8);
    push_bytes(&mut r, block.as_slice());
    push_header(&mut r);
    assert(r@ =~= types_block(*table));
    r
}

/// The information block of the list kinds.
fn lists_info(table: &ListKindsMetadataTable) -> (r: Vec<u8>)
    requires
        table.wf(),
    ensures
        r@ == lists_block(*table),
{
    let ghost entries = Seq::new(
        table.metadata@.len(),
        |i: int| info_entry(type_display(table.indexes@[i].0@), table.metadata@[i].size as usize, table.metadata@[i].pointer_mapping@),
    );
    let mut block: Vec<u8> = Vec::new();
    let mut i: usize = 0;
    while i < table.metadata.len()
        invariant
            i <= table.metadata@.len(),
            table.wf(),
            entries.len() == table.metadata@.len(),
            forall|j: int| 0 <= j < entries.len() ==> #[trigger] entries[j]
                == info_entry(type_display(table.indexes@[j].0@), table.metadata@[j].size as usize, table.metadata@[j].pointer_mapping@),
            block@ == entries.take(i as int).flatten(),
        decreases table.metadata@.len() - i,
    {
        let name = table.indexes[i].0.text();
        let meta = &table.metadata[i];
        push_info_entry(&mut block, name.as_slice(), meta.size as usize, meta.pointer_mapping.as_slice());
        proof {
            assert(entries.take(i + 1) =~= entries.take(i as int).push(entries[i as int]));
            entries.take(i as int).lemma_flatten_push(entries[i as int]);
        }
        i = i + 1;
    }
    assert(entries.take(entries.len() as int) =~= entries);
    let mut r: Vec<u8> = Vec::new();
    r.push(table.metadata.len() as u8);
    push_bytes(&mut r, block.as_slice());
    push_header(&mut r);
    assert(r@ =~= lists_block(*table));
    r
}

/// The information block of the functions.
fn functions_info(functions: &Vec<FunctionBytecode>) -> (r: Vec<u8>)
    ensures
        r@ == functions_block(functions@),
{
    let ghost entries = functions@.map_values(
        |f: FunctionBytecode| info_entry(qualified_text(f.name@.0, f.name@.1), f.args_size, f.args_pointer_mapping@),
    );
    let mut block: Vec<u8> = Vec::new();
    let mut i: usize = 0;
    while i < functions.len()
        invariant
            i <= functions@.len(),
            entries == functions@.map_values(
                |f: FunctionBytecode| info_entry(qualified_text(f.name@.0, f.name@.1), f.args_size, f.args_pointer_mapping@),
            ),
            block@ == entries.take(i as int).flatten(),
        decreases functions@.len() - i,
    {
        let f = &functions[i];
        let name = f.name.text();
        push_info_entry(&mut block, name.as_slice(), f.args_size, f.args_pointer_mapping.as_slice());
        proof {
            assert(entries.take(i + 1) =~= entries.take(i as int).push(entries[i as int]));
            entries.take(i as int).lemma_flatten_push(entries[i as int]);
        }
        i = i + 1;
    }
    assert(entries.take(entries.len() as int) =~= entries);
    let mut r: Vec<u8> = Vec::new();
    r.push(functions.len() as u8);
    push_bytes(&mut r, block.as_slice());
    push_header(&mut r);
    assert(r@ =~= functions_block(functions@));
    r
}

/// Position of the last function named `name`.
fn last_named_index(functions: &Vec<FunctionBytecode>, name: &SymbolFunc) -> (r: Option<usize>)
    ensures
        r matches Some(k) ==> last_named(functions@, name@) == Some(k as int),
        r is None ==> last_named(functions@, name@) is None,
{
    let mut k: usize = functions.len();
    assert(functions@.take(k as int) =~= functions@);
    while k > 0
        invariant
            k <= functions@.len(),
            last_named(functions@, name@) == last_named(functions@.take(k as int), name@),
        decreases k,
    {
        let ghost t = functions@.take(k as int);
        assert(t.drop_last() =~= functions@.take(k - 1));
        if functions[k - 1].name.same_as(name) {
            return Some(k - 1);
        }
        k = k - 1;
    }
    None
}

/// Start of the code of each function when all the code follows `base`.
fn code_starts(functions: &Vec<FunctionBytecode>, base: usize) -> (r: Vec<usize>)
    requires
        base + code_len(functions@) <= usize::MAX,
    ensures
        r@.len() == functions@.len(),
        forall|k: int| 0 <= k < r@.len() ==> r@[k] == base + code_len(#[trigger] functions@.take(k)),
{
    let mut starts: Vec<usize> = Vec::new();
    let mut next: usize = base;
    let mut k: usize = 0;
    assert(functions@.take(0) =~= Seq::<FunctionBytecode>::empty());
    while k < functions.len()
        invariant
            k <= functions@.len(),
            base + code_len(functions@) <= usize::MAX,
            starts@.len() == k,
            next == base + code_len(functions@.take(k as int)),
            forall|j: int| 0 <= j < k ==> starts@[j] == base + code_len(#[trigger] functions@.take(j)),
        decreases functions@.len() - k,
    {
        starts.push(next);
        proof {
            assert(functions@.take(k + 1).drop_last() =~= functions@.take(k as int));
            lemma_code_len_prefix(functions@, k + 1);
        }
        next = next + functions[k].bytecode.len();
        k = k + 1;
    }
    starts
}

/// The code of `f` with its call placeholders filled.
fn fill_code(f: &FunctionBytecode, functions: &Vec<FunctionBytecode>, starts: &Vec<usize>, Ghost(base): Ghost<int>) -> (r: Vec<u8>)
    requires
        starts@.len() == functions@.len(),
        forall|k: int| 0 <= k < starts@.len() ==> starts@[k] == base + code_len(#[trigger] functions@.take(k)),
        forall|c: int| 0 <= c < f.calls().len() ==> {
            &&& (#[trigger] f.calls()[c]).0 + 1 < f.bytecode@.len()
            &&& last_named(functions@, f.calls()[c].1) is Some
        },
    ensures
        r@ == fill_calls(f.bytecode@, f.calls(), functions@, base),
{
    let mut code: Vec<u8> = Vec::new();
    push_bytes(&mut code, f.bytecode.as_slice());
    assert(code@ =~= f.bytecode@);
    let mut c: usize = 0;
    assert(f.calls().take(0) =~= Seq::<(usize, SymbolModel)>::empty());
    while c < f.call_placeholders.len()
        invariant
            c <= f.calls().len(),
            f.calls().len() == f.call_placeholders@.len(),
            code@.len() == f.bytecode@.len(),
            starts@.len() == functions@.len(),
            forall|k: int| 0 <= k < starts@.len() ==> starts@[k] == base + code_len(#[trigger] functions@.take(k)),
            forall|c: int| 0 <= c < f.calls().len() ==> {
                &&& (#[trigger] f.calls()[c]).0 + 1 < f.bytecode@.len()
                &&& last_named(functions@, f.calls()[c].1) is Some
            },
            code@ == fill_calls(f.bytecode@, f.calls().take(c as int), functions@, base),
        decreases f.call_placeholders@.len() - c,
    {
        let (pos, callee) = (f.call_placeholders[c].0, &f.call_placeholders[c].1);
        assert(f.calls()[c as int] == (pos, callee@));
        let code_size = f.bytecode.len();
        assert(pos + 1 < code_size);
        let index = last_named_index(functions, callee);
        proof {
            lemma_last_named(functions@, callee@);
        }
        let idx = match index {
            Some(k) => k,
            None => 0,
        };
        let start = starts[idx] as u16;
        assert(start == start_of(functions@, base, callee@) as u16);
        code.set(pos, (start / 256) as u8);
        code.set(pos + 1, (start % 256) as u8);
        proof {
            let t = f.calls().take(c + 1);
            assert(t.drop_last() =~= f.calls().take(c as int));
            assert(t.last() == (pos, callee@));
        }
        c = c + 1;
    }
    assert(f.calls().take(f.calls().len() as int) =~= f.calls());
    code
}


pub proof fn lemma_last_named_exists(fs: Seq<FunctionBytecode>, k: int)
    requires
        0 <= k < fs.len(),
    ensures
        last_named(fs, fs[k].name@) is Some,
    decreases fs.len(),
{
    if fs.last().name@ != fs[k].name@ {
        assert(k < fs.len() - 1);
        assert(fs.drop_last()[k] == fs[k]);
        lemma_last_named_exists(fs.drop_last(), k);
    }
}

/// The start position of the function `name` (the last one of that name),
/// as two bytes.
fn push_start(bytecode: &mut Vec<u8>, functions: &Vec<FunctionBytecode>, starts: &Vec<usize>, name: &SymbolFunc, Ghost(base): Ghost<int>)
    requires
        starts@.len() == functions@.len(),
        forall|k: int| 0 <= k < starts@.len() ==> starts@[k] == base + code_len(#[trigger] functions@.take(k)),
        last_named(functions@, name@) is Some,
    ensures
        final(bytecode)@ == old(bytecode)@ + u16_be(start_of(functions@, base, name@) as u16),
{
    let index = last_named_index(functions, name);
    proof {
        lemma_last_named(functions@, name@);
    }
    let idx = match index {
        Some(k) => k,
        None => 0,
    };
    push_u16(bytecode, starts[idx] as u16);
}

/// The bytecode of a program made of the encoded `constants`, the layouts of
/// the user types and list kinds, and the code of `functions`, starting at
/// the function `entry` (see the module documentation for the layout).
pub fn assemble_chunks(
    constants: Vec<u8>,
    custom_types_meta: CustomTypesMetadataTable,
    list_kinds_meta: ListKindsMetadataTable,
    functions: Vec<FunctionBytecode>,
    entry: &SymbolFunc,
) -> (r: Vec<u8>)
    requires
        can_assemble(custom_types_meta, list_kinds_meta, functions@, entry@),
        code_base(constants@, custom_types_meta, list_kinds_meta, functions@) + code_len(functions@) <= usize::MAX,
    ensures
        r@ == assembled(constants@, custom_types_meta, list_kinds_meta, functions@, entry@),
{
    let ghost fs = functions@;
    // Header, constants, header
    let mut bytecode: Vec<u8> = Vec::new();
    push_header(&mut bytecode);
    push_bytes(&mut bytecode, constants.as_slice());
    push_header(&mut bytecode);
    // Types, list kinds and functions information
    let types_bytes = types_info(&custom_types_meta);
    push_bytes(&mut bytecode, types_bytes.as_slice());
    let lists_bytes = lists_info(&list_kinds_meta);
    push_bytes(&mut bytecode, lists_bytes.as_slice());
    let functions_bytes = functions_info(&functions);
    push_bytes(&mut bytecode, functions_bytes.as_slice());
    let ghost prefix = program_prefix(constants@, custom_types_meta, list_kinds_meta, fs);
    assert(bytecode@ =~= prefix);
    let base = bytecode.len() + 2 * functions.len() + 6;
    let ghost gbase = base as int;
    assert(gbase == code_base(constants@, custom_types_meta, list_kinds_meta, fs));
    let starts = code_starts(&functions, base);
    // Start position of each function
    let ghost positions = fs.map_values(|f: FunctionBytecode| u16_be(start_of(fs, gbase, f.name@) as u16));
    let mut k: usize = 0;
    while k < functions.len()
        invariant
            k <= fs.len(),
            fs == functions@,
            starts@.len() == fs.len(),
            forall|j: int| 0 <= j < starts@.len() ==> starts@[j] == gbase + code_len(#[trigger] fs.take(j)),
            positions == fs.map_values(|f: FunctionBytecode| u16_be(start_of(fs, gbase, f.name@) as u16)),
            bytecode@ == prefix + positions.take(k as int).flatten(),
        decreases fs.len() - k,
    {
        proof {
            lemma_last_named_exists(fs, k as int);
        }
        push_start(&mut bytecode, &functions, &starts, &functions[k].name, Ghost(gbase));
        proof {
            assert(positions.take(k + 1) =~= positions.take(k as int).push(positions[k as int]));
            positions.take(k as int).lemma_flatten_push(positions[k as int]);
        }
        k = k + 1;
    }
    assert(positions.take(fs.len() as int) =~= positions);
    push_header(&mut bytecode);
    // Entry position
    push_start(&mut bytecode, &functions, &starts, entry, Ghost(gbase));
    push_header(&mut bytecode);
    // Code of the functions
    let ghost bodies = fs.map_values(|f: FunctionBytecode| fill_calls(f.bytecode@, f.calls(), fs, gbase));
    let ghost head = bytecode@;
    let mut k: usize = 0;
    while k < functions.len()
        invariant
            k <= fs.len(),
            fs == functions@,
            can_assemble(custom_types_meta, list_kinds_meta, fs, entry@),
            starts@.len() == fs.len(),
            forall|j: int| 0 <= j < starts@.len() ==> starts@[j] == gbase + code_len(#[trigger] fs.take(j)),
            bodies == fs.map_values(|f: FunctionBytecode| fill_calls(f.bytecode@, f.calls(), fs, gbase)),
            bytecode@ == head + bodies.take(k as int).flatten(),
        decreases fs.len() - k,
    {
        let code = fill_code(&functions[k], &functions, &starts, Ghost(gbase));
        push_bytes(&mut bytecode, code.as_slice());
        proof {
            assert(bodies.take(k + 1) =~= bodies.take(k as int).push(bodies[k as int]));
            bodies.take(k as int).lemma_flatten_push(bodies[k as int]);
        }
        k = k + 1;
    }
    assert(bodies.take(fs.len() as int) =~= bodies);
    assert(bytecode@ =~= assembled(constants@, custom_types_meta, list_kinds_meta, fs, entry@));
    bytecode
}

} // verus!

verus! {

/// Whether each position below the number of types is the value of exactly
/// one entry of the table.
fn check_values_cover(table: &CustomTypesMetadataTable) -> (r: bool)
    ensures
        r == values_cover(table.entries(), table.metadata@.len() as int),
{
    let ghost e = table.entries();
    let n = table.metadata.len();
    let mut j: usize = 0;
    while j < table.indexes.len()
        invariant
            e == table.entries(),
            j <= e.len(),
            forall|a: int, b: int| 0 <= a < j && 0 <= b < e.len() && e[a].1 == e[b].1 ==> a == b,
        decreases e.len() - j,
    {
        let mut k: usize = 0;
        while k < table.indexes.len()
            invariant
                e == table.entries(),
                j < e.len(),
                k <= e.len(),
                forall|a: int, b: int| 0 <= a < j && 0 <= b < e.len() && e[a].1 == e[b].1 ==> a == b,
                forall|b: int| 0 <= b < k && e[j as int].1 == e[b].1 ==> j == b,
            decreases e.len() - k,
        {
            if k != j && table.indexes[j].1 == table.indexes[k].1 {
                assert(e[j as int].1 == e[k as int].1);
                return false;
            }
            k = k + 1;
        }
        j = j + 1;
    }
    let mut i: usize = 0;
    while i < n
        invariant
            e == table.entries(),
            n == table.metadata@.len(),
            i <= n,
            forall|a: int, b: int| 0 <= a < e.len() && 0 <= b < e.len() && e[a].1 == e[b].1 ==> a == b,
            forall|v: int| 0 <= v < i ==> #[trigger] has_value(e, v),
        decreases n - i,
    {
        let mut k: usize = 0;
        let mut found = false;
        while k < table.indexes.len()
            invariant
                e == table.entries(),
                k <= e.len(),
                i < n,
                found ==> has_value(e, i as int),
                !found ==> forall|b: int| 0 <= b < k ==> e[b].1 != i,
            decreases e.len() - k,
        {
            if table.indexes[k].1 == i {
                assert(e[k as int].1 == i);
                found = true;
            }
            k = k + 1;
        }
        if !found {
            assert(!has_value(e, i as int));
            return false;
        }
        i = i + 1;
    }
    true
}

/// Whether every call placeholder lies within its function's code and
/// calls one of the functions.
fn check_calls(functions: &Vec<FunctionBytecode>) -> (r: bool)
    ensures
        r == forall|k: int, c: int| 0 <= k < functions@.len() && 0 <= c < functions@[k].calls().len() ==> {
            &&& (#[trigger] functions@[k].calls()[c]).0 + 1 < functions@[k].bytecode@.len()
            &&& last_named(functions@, functions@[k].calls()[c].1) is Some
        },
{
    let ghost fs = functions@;
    let mut k: usize = 0;
    while k < functions.len()
        invariant
            fs == functions@,
            k <= fs.len(),
            forall|k2: int, c: int| 0 <= k2 < k && 0 <= c < fs[k2].calls().len() ==> {
                &&& (#[trigger] fs[k2].calls()[c]).0 + 1 < fs[k2].bytecode@.len()
                &&& last_named(fs, fs[k2].calls()[c].1) is Some
            },
        decreases fs.len() - k,
    {
        let f = &functions[k];
        let mut c: usize = 0;
        while c < f.call_placeholders.len()
            invariant
                fs == functions@,
                k < fs.len(),
                *f == fs[k as int],
                c <= f.call_placeholders@.len(),
                forall|k2: int, c2: int| 0 <= k2 < k && 0 <= c2 < fs[k2].calls().len() ==> {
                    &&& (#[trigger] fs[k2].calls()[c2]).0 + 1 < fs[k2].bytecode@.len()
                    &&& last_named(fs, fs[k2].calls()[c2].1) is Some
                },
                forall|c2: int| 0 <= c2 < c ==> {
                    &&& (#[trigger] fs[k as int].calls()[c2]).0 + 1 < fs[k as int].bytecode@.len()
                    &&& last_named(fs, fs[k as int].calls()[c2].1) is Some
                },
            decreases f.call_placeholders@.len() - c,
        {
            let (at, callee) = (&f.call_placeholders[c].0, &f.call_placeholders[c].1);
            assert(fs[k as int].calls()[c as int] == (*at, callee@));
            if *at >= f.bytecode.len() || *at + 1 >= f.bytecode.len() {
                return false;
            }
            if last_named_index(functions, callee).is_none() {
                return false;
            }
            c = c + 1;
        }
        k = k + 1;
    }
    true
}

/// `assemble_chunks` where the pieces can be assembled and the program's
/// length fits a `usize`; none otherwise.
pub fn try_assemble_chunks(
    constants: Vec<u8>,
    custom_types_meta: CustomTypesMetadataTable,
    list_kinds_meta: ListKindsMetadataTable,
    functions: Vec<FunctionBytecode>,
    entry: &SymbolFunc,
) -> (r: Option<Vec<u8>>)
    requires
        custom_types_meta.wf(),
        list_kinds_meta.wf(),
    ensures
        match r {
            Some(b) => can_assemble(custom_types_meta, list_kinds_meta, functions@, entry@)
                && code_base(constants@, custom_types_meta, list_kinds_meta, functions@) + code_len(functions@)
                <= usize::MAX && b@ == assembled(constants@, custom_types_meta, list_kinds_meta, functions@, entry@),
            None => !(can_assemble(custom_types_meta, list_kinds_meta, functions@, entry@) && code_base(
                constants@,
                custom_types_meta,
                list_kinds_meta,
                functions@,
            ) + code_len(functions@) <= usize::MAX),
        },
{
    if !check_values_cover(&custom_types_meta) {
        return None;
    }
    if last_named_index(&functions, entry).is_none() {
        return None;
    }
    if !check_calls(&functions) {
        return None;
    }
    let types_bytes = types_info(&custom_types_meta);
    let lists_bytes = lists_info(&list_kinds_meta);
    let functions_bytes = functions_info(&functions);
    let mut total: usize = 4;
    if total > usize::MAX - constants.len() {
        return None;
    }
    total = total + constants.len();
    if total > usize::MAX - types_bytes.len() {
        return None;
    }
    total = total + types_bytes.len();
    if total > usize::MAX - lists_bytes.len() {
        return None;
    }
    total = total + lists_bytes.len();
    if total > usize::MAX - functions_bytes.len() {
        return None;
    }
    total = total + functions_bytes.len();
    assert(total == program_prefix(constants@, custom_types_meta, list_kinds_meta, functions@).len());
    if total > usize::MAX - 6 || functions.len() > (usize::MAX - 6 - total) / 2 {
        return None;
    }
    total = total + 2 * functions.len() + 6;
    assert(total == code_base(constants@, custom_types_meta, list_kinds_meta, functions@));
    let mut k: usize = 0;
    while k < functions.len()
        invariant
            k <= functions@.len(),
            total == code_base(constants@, custom_types_meta, list_kinds_meta, functions@) + code_len(functions@.take(k as int)),
        decreases functions@.len() - k,
    {
        assert(functions@.take(k + 1).drop_last() =~= functions@.take(k as int));
        if total > usize::MAX - functions[k].bytecode.len() {
            proof {
                lemma_code_len_prefix(functions@, k + 1);
            }
            return None;
        }
        total = total + functions[k].bytecode.len();
        k = k + 1;
    }
    assert(functions@.take(functions@.len() as int) =~= functions@);
    Some(assemble_chunks(constants, custom_types_meta, list_kinds_meta, functions, entry))
}

} // verus!
