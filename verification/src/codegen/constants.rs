//! The table of constants of a program and its encoding.
use vstd::prelude::*;
use vstd::utf8::encode_utf8;

use crate::codegen::encoding::{push_bytes, push_u16, push_u64, u16_be, u64_be};
use crate::runtime::opcodes::{CONST_END_FLAG, CONST_FLOAT_FLAG, CONST_INT_FLAG, CONST_STRING_FLAG};

verus! {

/// A constant of a program. Floats are held as the bit pattern of their
/// IEEE-754 double value.
#[derive(Debug)]
pub enum Constant {
    Int(i64),
    Float(u64),
    String(String),
}

/// The mathematical value of a constant.
pub ghost enum ConstantModel {
    Int(i64),
    Float(u64),
    String(Seq<char>),
}

impl View for Constant {
    type V = ConstantModel;

    open spec fn view(&self) -> ConstantModel {
        match self {
            Constant::Int(i) => ConstantModel::Int(*i),
            Constant::Float(f) => ConstantModel::Float(*f),
            Constant::String(s) => ConstantModel::String(s@),
        }
    }
}

/// The bit pattern is a NaN (all exponent bits set, non-zero fraction).
pub open spec fn is_nan_bits(b: u64) -> bool {
    (b & 0x7ff0_0000_0000_0000u64) == 0x7ff0_0000_0000_0000u64 && (b & 0x000f_ffff_ffff_ffffu64) != 0
}

/// The bit pattern is positive or negative zero.
pub open spec fn is_zero_bits(b: u64) -> bool {
    (b & 0x7fff_ffff_ffff_ffffu64) == 0
}

/// Floating-point equality of two bit patterns: NaN equals nothing, and the
/// two zeros are equal.
pub open spec fn float_bits_eq(a: u64, b: u64) -> bool {
    !is_nan_bits(a) && !is_nan_bits(b) && (a == b || (is_zero_bits(a) && is_zero_bits(b)))
}

/// Two constants are equal (of the same kind, with equal values).
pub open spec fn same_constant(a: ConstantModel, b: ConstantModel) -> bool {
    match (a, b) {
        (ConstantModel::Int(x), ConstantModel::Int(y)) => x == y,
        (ConstantModel::Float(x), ConstantModel::Float(y)) => float_bits_eq(x, y),
        (ConstantModel::String(x), ConstantModel::String(y)) => x == y,
        _ => false,
    }
}

/// Position of the first constant of `table` equal to `c`.
pub open spec fn first_same(table: Seq<ConstantModel>, c: ConstantModel) -> Option<int>
    decreases table.len(),
{
    if table.len() == 0 {
        None
    } else {
        match first_same(table.drop_last(), c) {
            Some(p) => Some(p),
            None => if same_constant(table.last(), c) {
                Some(table.len() - 1)
            } else {
                None
            },
        }
    }
}

/// The table after a request for `c`, and the position of `c` in it: an
/// equal constant already present is reused, otherwise `c` is appended.
pub open spec fn with_constant(table: Seq<ConstantModel>, c: ConstantModel) -> (Seq<ConstantModel>, int) {
    match first_same(table, c) {
        Some(p) => (table, p),
        None => (table.push(c), table.len() as int),
    }
}

/// The encoding of one constant: its tag, then eight big-endian bytes for
/// numbers, or a two-byte length and the UTF-8 bytes for strings.
pub open spec fn constant_bytes(c: ConstantModel) -> Seq<u8> {
    match c {
        ConstantModel::Int(i) => seq![CONST_INT_FLAG] + u64_be(i as u64),
        ConstantModel::Float(f) => seq![CONST_FLOAT_FLAG] + u64_be(f),
        ConstantModel::String(s) => seq![CONST_STRING_FLAG] + u16_be(encode_utf8(s).len() as u16) + encode_utf8(s),
    }
}

/// The constants block: each constant in order, then the end flag.
pub open spec fn constants_block(table: Seq<ConstantModel>) -> Seq<u8> {
    table.map_values(|c: ConstantModel| constant_bytes(c)).flatten().push(CONST_END_FLAG)
}

pub proof fn lemma_first_same(table: Seq<ConstantModel>, c: ConstantModel)
    ensures
        first_same(table, c) matches Some(p) ==> 0 <= p < table.len() && same_constant(table[p], c)
            && forall|j: int| 0 <= j < p ==> !same_constant(#[trigger] table[j], c),
        first_same(table, c) is None ==> forall|j: int| 0 <= j < table.len() ==> !same_constant(#[trigger] table[j], c),
    decreases table.len(),
{
    if table.len() > 0 {
        lemma_first_same(table.drop_last(), c);
        assert forall|j: int| 0 <= j < table.len() - 1 implies table[j] == table.drop_last()[j] by {}
    }
}

fn is_nan(b: u64) -> (r: bool)
    ensures
        r == is_nan_bits(b),
{
    (b & 0x7ff0_0000_0000_0000u64) == 0x7ff0_0000_0000_0000u64 && (b & 0x000f_ffff_ffff_ffffu64) != 0
}

fn float_eq(a: u64, b: u64) -> (r: bool)
    ensures
        r == float_bits_eq(a, b),
{
    !is_nan(a) && !is_nan(b) && (a == b || ((a & 0x7fff_ffff_ffff_ffffu64) == 0 && (b & 0x7fff_ffff_ffff_ffffu64) == 0))
}

fn constants_equal(a: &Constant, b: &Constant) -> (r: bool)
    ensures
        r == same_constant(a@, b@),
{
    match (a, b) {
        (Constant::Int(x), Constant::Int(y)) => *x == *y,
        (Constant::Float(x), Constant::Float(y)) => float_eq(*x, *y),
        (Constant::String(x), Constant::String(y)) => *x == *y,
        _ => false,
    }
}

fn push_constant_bytes(out: &mut Vec<u8>, c: &Constant)
    ensures
        final(out)@ == old(out)@ + constant_bytes(c@),
{
    match c {
        Constant::Int(i) => {
            out.push(CONST_INT_FLAG);
            push_u64(out, *i as u64);
        },
        Constant::Float(f) => {
            out.push(CONST_FLOAT_FLAG);
            push_u64(out, *f);
        },
        Constant::String(s) => {
            let bytes = s.as_str().as_bytes();
            out.push(CONST_STRING_FLAG);
            push_u16(out, bytes.len() as u16);
            push_bytes(out, bytes);
        },
    }
    assert(final(out)@ =~= old(out)@ + constant_bytes(c@));
}

/// The encoding of `data`: each constant in order, then the end flag.
pub fn constants_to_bytecode(data: &[Constant]) -> (r: Vec<u8>)
    ensures
        r@ == constants_block(data@.map_values(|c: Constant| c@)),
{
    let ghost table = data@.map_values(|c: Constant| c@);
    let mut res: Vec<u8> = Vec::new();
    let mut i: usize = 0;
    while i < data.len()
        invariant
            i <= data@.len(),
            table == data@.map_values(|c: Constant| c@),
            res@ == table.take(i as int).map_values(|c: ConstantModel| constant_bytes(c)).flatten(),
        decreases data@.len() - i,
    {
        push_constant_bytes(&mut res, &data[i]);
        proof {
            let f = |c: ConstantModel| constant_bytes(c);
            let t = table.take(i as int + 1);
            assert(t.drop_last() =~= table.take(i as int));
            assert(t.map_values(f) =~= table.take(i as int).map_values(f).push(constant_bytes(data@[i as int]@)));
            table.take(i as int).map_values(f).lemma_flatten_push(constant_bytes(data@[i as int]@));
        }
        i = i + 1;
    }
    assert(table.take(data@.len() as int) =~= table);
    res.push(CONST_END_FLAG);
    res
}

/// The constants of a program, each stored once.
pub struct ConstantsTable {
    table: Vec<Constant>,
}

impl View for ConstantsTable {
    type V = Seq<ConstantModel>;

    closed spec fn view(&self) -> Seq<ConstantModel> {
        self.table@.map_values(|c: Constant| c@)
    }
}

impl ConstantsTable {
    /// An empty table.
    pub fn new() -> (r: Self)
        ensures
            r@ == Seq::<ConstantModel>::empty(),
    {
        let r = ConstantsTable { table: Vec::new() };
        assert(r@ =~= Seq::<ConstantModel>::empty());
        r
    }

    /// Position of `constant` in the table, adding it when no equal constant
    /// is there yet. The position is reported modulo 256, as one byte.
    pub fn get_constant(&mut self, constant: Constant) -> (r: u8)
        ensures
            final(self)@ == with_constant(old(self)@, constant@).0,
            r == with_constant(old(self)@, constant@).1 as u8,
    {
        let ghost before = self@;
        proof {
            lemma_first_same(before, constant@);
        }
        let mut i: usize = 0;
        while i < self.table.len()
            invariant
                i <= self.table@.len(),
                self@ == before,
                forall|j: int| 0 <= j < i ==> !same_constant(#[trigger] before[j], constant@),
                first_same(before, constant@) matches Some(p) ==> i <= p,
            decreases self.table@.len() - i,
        {
            if constants_equal(&self.table[i], &constant) {
                assert(before[i as int] == self.table@[i as int]@);
                proof {
                    lemma_first_same(before, constant@);
                    if let Some(p) = first_same(before, constant@) {
                        if p > i {
                            assert(!same_constant(before[i as int], constant@));
                        }
                        assert(p == i);
                    }
                }
                return i as u8;
            }
            assert(before[i as int] == self.table@[i as int]@);
            proof {
                lemma_first_same(before, constant@);
            }
            i = i + 1;
        }
        let pos = self.table.len();
        self.table.push(constant);
        assert(self@ =~= before.push(constant@));
        pos as u8
    }

    /// The encoding of the table (see `constants_block`).
    pub fn generate_bytecode(&self) -> (r: Vec<u8>)
        ensures
            r@ == constants_block(self@),
    {
        constants_to_bytecode(self.table.as_slice())
    }
}

/// Asking twice for a constant that is not a NaN gives the same position and
/// leaves the table as the first request left it.
pub proof fn law_constant_reuse(table: Seq<ConstantModel>, c: ConstantModel)
    requires
        !(c matches ConstantModel::Float(f) && is_nan_bits(f)),
    ensures
        with_constant(with_constant(table, c).0, c) == with_constant(table, c),
{
    lemma_first_same(table, c);
    let t1 = with_constant(table, c).0;
    lemma_first_same(t1, c);
    assert(same_constant(c, c));
    if first_same(table, c) is None {
        assert(t1.drop_last() =~= table);
        assert(first_same(t1.drop_last(), c) is None);
    } else {
        assert(t1 == table);
    }
}

} // verus!
