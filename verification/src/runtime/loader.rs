//! The layout of a loaded program as read from its bytecode.
use vstd::prelude::*;
use vstd::utf8::{decode_utf8, valid_utf8};

use crate::codegen::constants::ConstantModel;
use crate::codegen::encoding::{u16_from, u64_from};
use crate::runtime::opcodes::{CONST_END_FLAG, CONST_FLOAT_FLAG, CONST_INT_FLAG, CONST_STRING_FLAG};

verus! {

/// What loading a program reads from its bytecode: the constants, the size
/// and pointer mapping of each user type, list kind and function, the start
/// position of each function, the entry position, and where the code starts.
pub ghost struct ProgramModel {
    pub constants: Seq<ConstantModel>,
    pub types: Seq<(u16, Seq<u8>)>,
    pub lists: Seq<(u16, Seq<u8>)>,
    pub functions: Seq<(u16, Seq<u8>)>,
    pub positions: Seq<u16>,
    pub entry: u16,
    pub code_start: nat,
}

/// The first byte and the rest.
pub open spec fn take_u8(b: Seq<u8>) -> Option<(u8, Seq<u8>)> {
    if b.len() >= 1 {
        Some((b[0], b.skip(1)))
    } else {
        None
    }
}

/// A big-endian two-byte number and the rest.
pub open spec fn take_u16(b: Seq<u8>) -> Option<(u16, Seq<u8>)> {
    if b.len() >= 2 {
        Some((u16_from(b[0], b[1]), b.skip(2)))
    } else {
        None
    }
}

/// The first `n` bytes and the rest.
pub open spec fn take_n(b: Seq<u8>, n: int) -> Option<(Seq<u8>, Seq<u8>)> {
    if 0 <= n <= b.len() {
        Some((b.take(n), b.skip(n)))
    } else {
        None
    }
}

/// The rest after a header.
pub open spec fn take_header(b: Seq<u8>) -> Option<Seq<u8>> {
    if b.len() >= 2 && b[0] == 0xffu8 && b[1] == 0xffu8 {
        Some(b.skip(2))
    } else {
        None
    }
}

/// A name given by its two-byte length; the name is skipped.
pub open spec fn skip_name(b: Seq<u8>) -> Option<Seq<u8>> {
    match take_u16(b) {
        Some((len, r)) => match take_n(r, len as int) {
            Some((_name, r2)) => Some(r2),
            None => None,
        },
        None => None,
    }
}

/// A pointer mapping given by its one-byte length.
pub open spec fn take_map(b: Seq<u8>) -> Option<(Seq<u8>, Seq<u8>)> {
    match take_u8(b) {
        Some((count, r)) => take_n(r, count as int),
        None => None,
    }
}

/// One item of an information block: its size and pointer mapping (the
/// name is skipped).
pub open spec fn take_info_entry(b: Seq<u8>) -> Option<((u16, Seq<u8>), Seq<u8>)> {
    match skip_name(b) {
        Some(r) => match take_u16(r) {
            Some((size, r2)) => match take_map(r2) {
                Some((m, r3)) => Some(((size, m), r3)),
                None => None,
            },
            None => None,
        },
        None => None,
    }
}

/// `n` items of an information block.
pub open spec fn take_info_entries(b: Seq<u8>, n: nat) -> Option<(Seq<(u16, Seq<u8>)>, Seq<u8>)>
    decreases n,
{
    if n == 0 {
        Some((Seq::empty(), b))
    } else {
        match take_info_entry(b) {
            Some((e, r)) => match take_info_entries(r, (n - 1) as nat) {
                Some((es, r2)) => Some((seq![e] + es, r2)),
                None => None,
            },
            None => None,
        }
    }
}

/// An information block: a one-byte count, the items, a header.
pub open spec fn take_info_block(b: Seq<u8>) -> Option<(Seq<(u16, Seq<u8>)>, Seq<u8>)> {
    match take_u8(b) {
        Some((count, r)) => match take_info_entries(r, count as nat) {
            Some((es, r2)) => match take_header(r2) {
                Some(r3) => Some((es, r3)),
                None => None,
            },
            None => None,
        },
        None => None,
    }
}

/// One constant after its tag, or `None` for an unknown tag, a missing
/// byte, or a string that is not valid UTF-8.
pub open spec fn take_constant_value(flag: u8, b: Seq<u8>) -> Option<(ConstantModel, Seq<u8>)> {
    if flag == CONST_INT_FLAG {
        match take_n(b, 8) {
            Some((v, r)) => Some((ConstantModel::Int(u64_from(v) as i64), r)),
            None => None,
        }
    } else if flag == CONST_FLOAT_FLAG {
        match take_n(b, 8) {
            Some((v, r)) => Some((ConstantModel::Float(u64_from(v)), r)),
            None => None,
        }
    } else if flag == CONST_STRING_FLAG {
        match take_u16(b) {
            Some((len, r)) => match take_n(r, len as int) {
                Some((bytes, r2)) => if valid_utf8(bytes) {
                    Some((ConstantModel::String(decode_utf8(bytes)), r2))
                } else {
                    None
                },
                None => None,
            },
            None => None,
        }
    } else {
        None
    }
}

/// The constants up to the end flag, and the rest after the flag.
pub open spec fn take_constants(b: Seq<u8>) -> Option<(Seq<ConstantModel>, Seq<u8>)>
    decreases b.len(),
{
    match take_u8(b) {
        Some((flag, r)) => if flag == CONST_END_FLAG {
            Some((Seq::empty(), r))
        } else {
            match take_constant_value(flag, r) {
                Some((c, r2)) => if r2.len() < b.len() {
                    match take_constants(r2) {
                        Some((cs, r3)) => Some((seq![c] + cs, r3)),
                        None => None,
                    }
                } else {
                    None
                },
                None => None,
            }
        },
        None => None,
    }
}

/// `n` two-byte positions.
pub open spec fn take_positions(b: Seq<u8>, n: nat) -> Option<(Seq<u16>, Seq<u8>)>
    decreases n,
{
    if n == 0 {
        Some((Seq::empty(), b))
    } else {
        match take_u16(b) {
            Some((p, r)) => match take_positions(r, (n - 1) as nat) {
                Some((ps, r2)) => Some((seq![p] + ps, r2)),
                None => None,
            },
            None => None,
        }
    }
}

/// What loading reads from `b`, or `None` when `b` is not a program: a
/// header is missing, a constant has an unknown tag or is not valid text,
/// or the bytes end early.
#[verifier::opaque]
pub open spec fn load_program(b: Seq<u8>) -> Option<ProgramModel> {
    match take_header(b) {
        None => None,
        Some(r0) => match take_constants(r0) {
            None => None,
            Some((constants, r1)) => match take_header(r1) {
                None => None,
                Some(r2) => match take_info_block(r2) {
                    None => None,
                    Some((types, r3)) => match take_info_block(r3) {
                        None => None,
                        Some((lists, r4)) => match take_info_block(r4) {
                            None => None,
                            Some((functions, r5)) => match take_positions(r5, functions.len()) {
                                None => None,
                                Some((positions, r6)) => match take_header(r6) {
                                    None => None,
                                    Some(r7) => match take_u16(r7) {
                                        None => None,
                                        Some((entry, r8)) => match take_header(r8) {
                                            None => None,
                                            Some(r9) => Some(
                                                ProgramModel {
                                                    constants,
                                                    types,
                                                    lists,
                                                    functions,
                                                    positions,
                                                    entry,
                                                    code_start: (b.len() - r9.len()) as nat,
                                                },
                                            ),
                                        },
                                    },
                                },
                            },
                        },
                    },
                },
            },
        },
    }
}

} // verus!

verus! {

pub proof fn lemma_take_header(rest: Seq<u8>)
    ensures
        take_header(crate::codegen::assemble::header_bytes() + rest) == Some(rest),
{
    let b = crate::codegen::assemble::header_bytes() + rest;
    assert(b.skip(2) =~= rest);
}

pub proof fn lemma_take_u16(n: u16, rest: Seq<u8>)
    ensures
        take_u16(crate::codegen::encoding::u16_be(n) + rest) == Some((n, rest)),
{
    let b = crate::codegen::encoding::u16_be(n) + rest;
    crate::codegen::encoding::lemma_u16_roundtrip(n);
    assert(b.skip(2) =~= rest);
}

pub proof fn lemma_take_n(x: Seq<u8>, rest: Seq<u8>)
    ensures
        take_n(x + rest, x.len() as int) == Some((x, rest)),
{
    let b = x + rest;
    assert(b.take(x.len() as int) =~= x);
    assert(b.skip(x.len() as int) =~= rest);
}

} // verus!

verus! {

/// The one-byte image of a pointer mapping.
pub open spec fn map_bytes(m: Seq<usize>) -> Seq<u8> {
    m.map_values(|x: usize| x as u8)
}

#[verifier::spinoff_prover]
#[verifier::rlimit(30)]
pub proof fn lemma_take_info_entry(name: Seq<char>, size: usize, m: Seq<usize>, rest: Seq<u8>)
    requires
        vstd::utf8::encode_utf8(name).len() < 65536,
        m.len() < 256,
    ensures
        take_info_entry(crate::codegen::assemble::info_entry(name, size, m) + rest) == Some(((size as u16, map_bytes(m)), rest)),
{
    let enc = vstd::utf8::encode_utf8(name);
    let mm = map_bytes(m);
    let tail3 = seq![m.len() as u8] + mm + rest;
    let tail2 = crate::codegen::encoding::u16_be(size as u16) + tail3;
    let tail1 = enc + tail2;
    let b = crate::codegen::assemble::info_entry(name, size, m) + rest;
    assert(b =~= crate::codegen::encoding::u16_be(enc.len() as u16) + tail1);
    lemma_take_u16(enc.len() as u16, tail1);
    assert((enc.len() as u16) as int == enc.len());
    lemma_take_n(enc, tail2);
    assert(skip_name(b) == Some(tail2));
    lemma_take_u16(size as u16, tail3);
    assert(tail3 =~= seq![m.len() as u8] + (mm + rest));
    assert(tail3.skip(1) =~= mm + rest);
    assert(take_u8(tail3) == Some((m.len() as u8, mm + rest)));
    assert((m.len() as u8) as int == mm.len());
    lemma_take_n(mm, rest);
}

/// Reading `n` items from the concatenation of their encodings gives back
/// their sizes and pointer mappings.
#[verifier::spinoff_prover]
pub proof fn lemma_take_info_entries(names: Seq<Seq<char>>, sizes: Seq<usize>, maps: Seq<Seq<usize>>, rest: Seq<u8>)
    requires
        names.len() == sizes.len() == maps.len(),
        forall|i: int| 0 <= i < names.len() ==> vstd::utf8::encode_utf8(#[trigger] names[i]).len() < 65536,
        forall|i: int| 0 <= i < maps.len() ==> (#[trigger] maps[i]).len() < 256,
    ensures
        take_info_entries(
            Seq::new(names.len(), |i: int| crate::codegen::assemble::info_entry(names[i], sizes[i], maps[i])).flatten() + rest,
            names.len(),
        ) == Some((Seq::new(names.len(), |i: int| (sizes[i] as u16, map_bytes(maps[i]))), rest)),
    decreases names.len(),
{
    let n = names.len();
    let es = Seq::new(n, |i: int| crate::codegen::assemble::info_entry(names[i], sizes[i], maps[i]));
    let ms = Seq::new(n, |i: int| (sizes[i] as u16, map_bytes(maps[i])));
    if n == 0 {
        assert(es.flatten() + rest =~= rest);
        assert(ms =~= Seq::<(u16, Seq<u8>)>::empty());
    } else {
        let names2 = names.drop_first();
        let sizes2 = sizes.drop_first();
        let maps2 = maps.drop_first();
        let es2 = Seq::new(names2.len(), |i: int| crate::codegen::assemble::info_entry(names2[i], sizes2[i], maps2[i]));
        let ms2 = Seq::new(names2.len(), |i: int| (sizes2[i] as u16, map_bytes(maps2[i])));
        assert(es.drop_first() =~= es2);
        assert(ms =~= seq![ms[0]] + ms2);
        assert forall|i: int| 0 <= i < names2.len() implies vstd::utf8::encode_utf8(#[trigger] names2[i]).len() < 65536 by {
            assert(names2[i] == names[i + 1]);
        }
        assert forall|i: int| 0 <= i < maps2.len() implies (#[trigger] maps2[i]).len() < 256 by {
            assert(maps2[i] == maps[i + 1]);
        }
        lemma_take_info_entries(names2, sizes2, maps2, rest);
        let tail = es2.flatten() + rest;
        assert(es.flatten() == es[0] + es.drop_first().flatten());
        assert(es.flatten() + rest =~= es[0] + tail);
        lemma_take_info_entry(names[0], sizes[0], maps[0], tail);
    }
}

pub proof fn lemma_take_info_block(names: Seq<Seq<char>>, sizes: Seq<usize>, maps: Seq<Seq<usize>>, rest: Seq<u8>)
    requires
        names.len() == sizes.len() == maps.len(),
        names.len() < 256,
        forall|i: int| 0 <= i < names.len() ==> vstd::utf8::encode_utf8(#[trigger] names[i]).len() < 65536,
        forall|i: int| 0 <= i < maps.len() ==> (#[trigger] maps[i]).len() < 256,
    ensures
        take_info_block(
            crate::codegen::assemble::info_block(
                Seq::new(names.len(), |i: int| crate::codegen::assemble::info_entry(names[i], sizes[i], maps[i])),
            ) + rest,
        ) == Some((Seq::new(names.len(), |i: int| (sizes[i] as u16, map_bytes(maps[i]))), rest)),
{
    let es = Seq::new(names.len(), |i: int| crate::codegen::assemble::info_entry(names[i], sizes[i], maps[i]));
    let tail = crate::codegen::assemble::header_bytes() + rest;
    let b = crate::codegen::assemble::info_block(es) + rest;
    assert(b =~= seq![es.len() as u8] + (es.flatten() + tail));
    assert(b.skip(1) =~= es.flatten() + tail);
    lemma_take_info_entries(names, sizes, maps, tail);
    lemma_take_header(rest);
}

} // verus!

verus! {

/// A constant whose text, if any, fits a two-byte length.
pub open spec fn encodable_constant(c: ConstantModel) -> bool {
    c matches ConstantModel::String(s) ==> vstd::utf8::encode_utf8(s).len() < 65536
}

pub proof fn lemma_take_constant_value(c: ConstantModel, rest: Seq<u8>)
    requires
        encodable_constant(c),
    ensures
        ({
            let cb = crate::codegen::constants::constant_bytes(c);
            take_constant_value(cb[0], cb.skip(1) + rest) == Some((c, rest))
        }),
{
    let cb = crate::codegen::constants::constant_bytes(c);
    match c {
        ConstantModel::Int(i) => {
            let v = crate::codegen::encoding::u64_be(i as u64);
            assert(cb.skip(1) =~= v);
            lemma_take_n(v, rest);
            crate::codegen::encoding::lemma_u64_roundtrip(i as u64);
            assert(((i as u64) as i64) == i) by (bit_vector);
        },
        ConstantModel::Float(f) => {
            let v = crate::codegen::encoding::u64_be(f);
            assert(cb.skip(1) =~= v);
            lemma_take_n(v, rest);
            crate::codegen::encoding::lemma_u64_roundtrip(f);
        },
        ConstantModel::String(s) => {
            let enc = vstd::utf8::encode_utf8(s);
            assert(cb.skip(1) + rest =~= crate::codegen::encoding::u16_be(enc.len() as u16) + (enc + rest));
            lemma_take_u16(enc.len() as u16, enc + rest);
            lemma_take_n(enc, rest);
            vstd::utf8::encode_utf8_valid_utf8(s);
            vstd::utf8::encode_utf8_decode_utf8(s);
        },
    }
}

/// Reading the constants block of `table` gives back `table`.
#[verifier::spinoff_prover]
pub proof fn lemma_take_constants(table: Seq<ConstantModel>, rest: Seq<u8>)
    requires
        forall|i: int| 0 <= i < table.len() ==> encodable_constant(#[trigger] table[i]),
    ensures
        take_constants(crate::codegen::constants::constants_block(table) + rest) == Some((table, rest)),
    decreases table.len(),
{
    let f = |c: ConstantModel| crate::codegen::constants::constant_bytes(c);
    let b = crate::codegen::constants::constants_block(table) + rest;
    if table.len() == 0 {
        assert(table.map_values(f) =~= Seq::<Seq<u8>>::empty());
        assert(b =~= seq![crate::runtime::opcodes::CONST_END_FLAG] + rest);
        assert(b.skip(1) =~= rest);
        assert(table =~= Seq::<ConstantModel>::empty());
    } else {
        let t2 = table.drop_first();
        assert forall|i: int| 0 <= i < t2.len() implies encodable_constant(#[trigger] t2[i]) by {
            assert(t2[i] == table[i + 1]);
        }
        lemma_take_constants(t2, rest);
        let x = crate::codegen::constants::constants_block(t2) + rest;
        let cb = f(table[0]);
        assert(table.map_values(f).drop_first() =~= t2.map_values(f));
        assert(table.map_values(f).flatten() == cb + t2.map_values(f).flatten());
        assert(b =~= cb + x);
        assert(cb.len() >= 1);
        assert(b[0] == cb[0]);
        assert(b.skip(1) =~= cb.skip(1) + x);
        lemma_take_constant_value(table[0], x);
        assert(cb[0] != crate::runtime::opcodes::CONST_END_FLAG);
        assert(seq![table[0]] + t2 =~= table);
    }
}

#[verifier::spinoff_prover]
pub proof fn lemma_take_positions(ps: Seq<u16>, rest: Seq<u8>)
    ensures
        take_positions(ps.map_values(|p: u16| crate::codegen::encoding::u16_be(p)).flatten() + rest, ps.len()) == Some((ps, rest)),
    decreases ps.len(),
{
    let f = |p: u16| crate::codegen::encoding::u16_be(p);
    if ps.len() == 0 {
        assert(ps.map_values(f).flatten() + rest =~= rest);
        assert(ps =~= Seq::<u16>::empty());
    } else {
        let p2 = ps.drop_first();
        lemma_take_positions(p2, rest);
        assert(ps.map_values(f).drop_first() =~= p2.map_values(f));
        let x = p2.map_values(f).flatten() + rest;
        assert(ps.map_values(f).flatten() + rest =~= f(ps[0]) + x);
        lemma_take_u16(ps[0], x);
        assert(seq![ps[0]] + p2 =~= ps);
    }
}

} // verus!

verus! {

/// What loading reads back from the program assembled from the constants
/// `table`, the layouts `types` and `lists`, the functions `fs` and `entry`.
pub open spec fn assembly_model(
    table: Seq<ConstantModel>,
    types: crate::codegen::metadata::CustomTypesMetadataTable,
    lists: crate::codegen::metadata::ListKindsMetadataTable,
    fs: Seq<crate::codegen::generator::FunctionBytecode>,
    entry: (Seq<char>, Seq<char>),
) -> ProgramModel {
    let base = crate::codegen::assemble::code_base(crate::codegen::constants::constants_block(table), types, lists, fs);
    ProgramModel {
        constants: table,
        types: Seq::new(types.metadata@.len(), |i: int| (types.metadata@[i].size as usize as u16, map_bytes(types.metadata@[i].pointer_mapping@))),
        lists: Seq::new(lists.metadata@.len(), |i: int| (lists.metadata@[i].size as usize as u16, map_bytes(lists.metadata@[i].pointer_mapping@))),
        functions: fs.map_values(|f: crate::codegen::generator::FunctionBytecode| (f.args_size as u16, map_bytes(f.args_pointer_mapping@))),
        positions: fs.map_values(|f: crate::codegen::generator::FunctionBytecode| crate::codegen::assemble::start_of(fs, base, f.name@) as u16),
        entry: crate::codegen::assemble::start_of(fs, base, entry) as u16,
        code_start: base as nat,
    }
}

/// The texts of the constants fit a two-byte length.
pub open spec fn constants_encodable(table: Seq<ConstantModel>) -> bool {
    forall|i: int| 0 <= i < table.len() ==> encodable_constant(#[trigger] table[i])
}

/// Fewer than 256 user types, each name shorter than 65536 bytes and each
/// pointer mapping shorter than 256.
pub open spec fn types_encodable(types: crate::codegen::metadata::CustomTypesMetadataTable) -> bool {
    &&& types.metadata@.len() < 256
    &&& forall|i: int| 0 <= i < types.metadata@.len() ==> {
        &&& vstd::utf8::encode_utf8(qualified_text_of(crate::codegen::assemble::key_of_value(types.entries(), i))).len() < 65536
        &&& (#[trigger] types.metadata@[i]).pointer_mapping@.len() < 256
    }
}

/// Fewer than 256 list kinds, each printed type shorter than 65536 bytes
/// and each pointer mapping shorter than 256.
pub open spec fn lists_encodable(lists: crate::codegen::metadata::ListKindsMetadataTable) -> bool {
    &&& lists.metadata@.len() < 256
    &&& forall|i: int| 0 <= i < lists.metadata@.len() ==> {
        &&& vstd::utf8::encode_utf8(crate::types::type_display(lists.indexes@[i].0@)).len() < 65536
        &&& (#[trigger] lists.metadata@[i]).pointer_mapping@.len() < 256
    }
}

/// Fewer than 256 functions, each name shorter than 65536 bytes and each
/// argument pointer mapping shorter than 256.
pub open spec fn functions_encodable(fs: Seq<crate::codegen::generator::FunctionBytecode>) -> bool {
    &&& fs.len() < 256
    &&& forall|k: int| 0 <= k < fs.len() ==> {
        &&& vstd::utf8::encode_utf8(crate::symbols::qualified_text((#[trigger] fs[k]).name@.0, fs[k].name@.1)).len() < 65536
        &&& fs[k].args_pointer_mapping@.len() < 256
    }
}

/// Every part fits the fields that encode it.
pub open spec fn encodable_parts(
    table: Seq<ConstantModel>,
    types: crate::codegen::metadata::CustomTypesMetadataTable,
    lists: crate::codegen::metadata::ListKindsMetadataTable,
    fs: Seq<crate::codegen::generator::FunctionBytecode>,
) -> bool {
    &&& constants_encodable(table)
    &&& types_encodable(types)
    &&& lists_encodable(lists)
    &&& functions_encodable(fs)
}

proof fn lemma_positions_len(ps: Seq<u16>)
    ensures
        ps.map_values(|p: u16| crate::codegen::encoding::u16_be(p)).flatten().len() == 2 * ps.len(),
    decreases ps.len(),
{
    let f = |p: u16| crate::codegen::encoding::u16_be(p);
    if ps.len() > 0 {
        lemma_positions_len(ps.drop_first());
        assert(ps.map_values(f).drop_first() =~= ps.drop_first().map_values(f));
    }
}

proof fn lemma_types_part(
    types: crate::codegen::metadata::CustomTypesMetadataTable,
    rest: Seq<u8>,
)
    requires
        types_encodable(types),
    ensures
        take_info_block(crate::codegen::assemble::types_block(types) + rest) == Some((
            Seq::new(types.metadata@.len(), |i: int| (types.metadata@[i].size as usize as u16, map_bytes(types.metadata@[i].pointer_mapping@))),
            rest,
        )),
{
    let tn = types.metadata@.len();
    let t_names = Seq::new(tn, |i: int| qualified_text_of(crate::codegen::assemble::key_of_value(types.entries(), i)));
    let t_sizes = Seq::new(tn, |i: int| types.metadata@[i].size as usize);
    let t_maps = Seq::new(tn, |i: int| types.metadata@[i].pointer_mapping@);
    assert(Seq::new(tn, |i: int| crate::codegen::assemble::info_entry(t_names[i], t_sizes[i], t_maps[i])) =~= Seq::new(
        tn,
        |i: int|
            {
                let k = crate::codegen::assemble::key_of_value(types.entries(), i);
                crate::codegen::assemble::info_entry(crate::symbols::qualified_text(k.0, k.1), types.metadata@[i].size as usize, types.metadata@[i].pointer_mapping@)
            },
    ));
    assert forall|i: int| 0 <= i < tn implies vstd::utf8::encode_utf8(#[trigger] t_names[i]).len() < 65536 && t_maps[i].len() < 256 by {
        assert(types.metadata@[i].pointer_mapping@.len() < 256);
    }
    lemma_take_info_block(t_names, t_sizes, t_maps, rest);
    assert(Seq::new(tn, |i: int| (t_sizes[i] as u16, map_bytes(t_maps[i]))) =~= Seq::new(
        tn,
        |i: int| (types.metadata@[i].size as usize as u16, map_bytes(types.metadata@[i].pointer_mapping@)),
    ));
}

proof fn lemma_lists_part(
    lists: crate::codegen::metadata::ListKindsMetadataTable,
    rest: Seq<u8>,
)
    requires
        lists_encodable(lists),
    ensures
        take_info_block(crate::codegen::assemble::lists_block(lists) + rest) == Some((
            Seq::new(lists.metadata@.len(), |i: int| (lists.metadata@[i].size as usize as u16, map_bytes(lists.metadata@[i].pointer_mapping@))),
            rest,
        )),
{
    let ln = lists.metadata@.len();
    let l_names = Seq::new(ln, |i: int| crate::types::type_display(lists.indexes@[i].0@));
    let l_sizes = Seq::new(ln, |i: int| lists.metadata@[i].size as usize);
    let l_maps = Seq::new(ln, |i: int| lists.metadata@[i].pointer_mapping@);
    assert(Seq::new(ln, |i: int| crate::codegen::assemble::info_entry(l_names[i], l_sizes[i], l_maps[i])) =~= Seq::new(
        ln,
        |i: int| crate::codegen::assemble::info_entry(crate::types::type_display(lists.indexes@[i].0@), lists.metadata@[i].size as usize, lists.metadata@[i].pointer_mapping@),
    ));
    assert forall|i: int| 0 <= i < ln implies vstd::utf8::encode_utf8(#[trigger] l_names[i]).len() < 65536 && l_maps[i].len() < 256 by {
        assert(lists.metadata@[i].pointer_mapping@.len() < 256);
    }
    lemma_take_info_block(l_names, l_sizes, l_maps, rest);
    assert(Seq::new(ln, |i: int| (l_sizes[i] as u16, map_bytes(l_maps[i]))) =~= Seq::new(
        ln,
        |i: int| (lists.metadata@[i].size as usize as u16, map_bytes(lists.metadata@[i].pointer_mapping@)),
    ));
}

proof fn lemma_functions_part(fs: Seq<crate::codegen::generator::FunctionBytecode>, rest: Seq<u8>)
    requires
        functions_encodable(fs),
    ensures
        take_info_block(crate::codegen::assemble::functions_block(fs) + rest) == Some((
            fs.map_values(|f: crate::codegen::generator::FunctionBytecode| (f.args_size as u16, map_bytes(f.args_pointer_mapping@))),
            rest,
        )),
{
    let fnn = fs.len();
    let f_names = Seq::new(fnn, |k: int| crate::symbols::qualified_text(fs[k].name@.0, fs[k].name@.1));
    let f_sizes = Seq::new(fnn, |k: int| fs[k].args_size);
    let f_maps = Seq::new(fnn, |k: int| fs[k].args_pointer_mapping@);
    assert(Seq::new(fnn, |k: int| crate::codegen::assemble::info_entry(f_names[k], f_sizes[k], f_maps[k])) =~= fs.map_values(
        |f: crate::codegen::generator::FunctionBytecode| crate::codegen::assemble::info_entry(crate::symbols::qualified_text(f.name@.0, f.name@.1), f.args_size, f.args_pointer_mapping@),
    ));
    assert forall|k: int| 0 <= k < fnn implies vstd::utf8::encode_utf8(#[trigger] f_names[k]).len() < 65536 && f_maps[k].len() < 256 by {
        assert(fs[k].args_pointer_mapping@.len() < 256);
    }
    lemma_take_info_block(f_names, f_sizes, f_maps, rest);
    assert(Seq::new(fnn, |k: int| (f_sizes[k] as u16, map_bytes(f_maps[k]))) =~= fs.map_values(
        |f: crate::codegen::generator::FunctionBytecode| (f.args_size as u16, map_bytes(f.args_pointer_mapping@)),
    ));
}

/// Loading a program that was assembled from encodable parts reads back
/// those parts: the constants, the size and pointer mapping of every type,
/// list kind and function, the start position of every function and of the
/// entry, and where the code starts.
#[verifier::spinoff_prover]
#[verifier::rlimit(40)]
pub proof fn law_load_after_assemble(
    table: Seq<ConstantModel>,
    types: crate::codegen::metadata::CustomTypesMetadataTable,
    lists: crate::codegen::metadata::ListKindsMetadataTable,
    fs: Seq<crate::codegen::generator::FunctionBytecode>,
    entry: (Seq<char>, Seq<char>),
)
    requires
        encodable_parts(table, types, lists, fs),
    ensures
        load_program(
            crate::codegen::assemble::assembled(crate::codegen::constants::constants_block(table), types, lists, fs, entry),
        ) == Some(assembly_model(table, types, lists, fs, entry)),
{
    let c = crate::codegen::constants::constants_block(table);
    let h = crate::codegen::assemble::header_bytes();
    let tb = crate::codegen::assemble::types_block(types);
    let lb = crate::codegen::assemble::lists_block(lists);
    let fb = crate::codegen::assemble::functions_block(fs);
    let base = crate::codegen::assemble::code_base(c, types, lists, fs);
    let ps = fs.map_values(|f: crate::codegen::generator::FunctionBytecode| crate::codegen::assemble::start_of(fs, base, f.name@) as u16);
    let g = |p: u16| crate::codegen::encoding::u16_be(p);
    let pos = fs.map_values(|f: crate::codegen::generator::FunctionBytecode| crate::codegen::encoding::u16_be(crate::codegen::assemble::start_of(fs, base, f.name@) as u16)).flatten();
    assert(ps.map_values(g) =~= fs.map_values(|f: crate::codegen::generator::FunctionBytecode| crate::codegen::encoding::u16_be(crate::codegen::assemble::start_of(fs, base, f.name@) as u16)));
    let e = crate::codegen::encoding::u16_be(crate::codegen::assemble::start_of(fs, base, entry) as u16);
    let bodies = fs.map_values(|f: crate::codegen::generator::FunctionBytecode| crate::codegen::assemble::fill_calls(f.bytecode@, f.calls(), fs, base)).flatten();
    let b = crate::codegen::assemble::assembled(c, types, lists, fs, entry);
    let r9 = bodies;
    let r8 = h + r9;
    let r7 = e + r8;
    let r6 = h + r7;
    let r5 = pos + r6;
    let r4 = fb + r5;
    let r3 = lb + r4;
    let r2 = tb + r3;
    let r1 = h + r2;
    let r0 = c + r1;
    assert(b =~= h + r0);
    lemma_take_header(r0);
    lemma_take_constants(table, r1);
    lemma_take_header(r2);
    lemma_types_part(types, r3);
    lemma_lists_part(lists, r4);
    lemma_functions_part(fs, r5);
    lemma_take_positions(ps, r6);
    lemma_take_header(r7);
    lemma_take_u16(crate::codegen::assemble::start_of(fs, base, entry) as u16, r8);
    lemma_take_header(r9);
    lemma_positions_len(ps);
    assert(b.len() - r9.len() == base);
    let m = assembly_model(table, types, lists, fs, entry);
    assert(take_header(b) == Some(r0));
    assert(take_constants(r0) == Some((table, r1)));
    assert(take_header(r1) == Some(r2));
    assert(take_info_block(r2) == Some((m.types, r3)));
    assert(take_info_block(r3) == Some((m.lists, r4)));
    assert(take_info_block(r4) == Some((m.functions, r5)));
    assert(m.functions.len() == ps.len());
    assert(take_positions(r5, m.functions.len()) == Some((m.positions, r6)));
    assert(take_header(r6) == Some(r7));
    assert(take_u16(r7) == Some((m.entry, r8)));
    assert(take_header(r8) == Some(r9));
    assert(load_program(b) == Some(m)) by {
        reveal(load_program);
    }
}

/// Printed form of a qualified name.
pub open spec fn qualified_text_of(k: (Seq<char>, Seq<char>)) -> Seq<char> {
    crate::symbols::qualified_text(k.0, k.1)
}

} // verus!
