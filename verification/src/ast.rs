//! Syntax trees: the parsed form of source files, the type language that
//! semantic checks work on, and the verified form.
use vstd::prelude::*;

use crate::alias::ModuleAlias;
use crate::text::{chars_of, digit_char, extend_chars, hex_digit};
use crate::types::{depth, lemma_depth_seq_bound, ParsedType};

pub mod display_verified;
pub mod parsed;
pub mod verified;

verus! {

/// A type as the semantic checks see it; user types by their name.
#[derive(Debug, PartialEq, Eq, Hash)]
pub enum Type {
    Int,
    Float,
    Bool,
    String,
    Nil,
    List(Box<Type>),
    Tuple(Vec<Type>),
    Maybe(Box<Type>),
    Ident(String),
    /// A user type resolved to the module that defines it.
    IdentQualified(ModuleAlias, String),
    /// The item type of an empty list literal, not known yet.
    Anonymous,
}

/// The mathematical value of a semantic `Type`.
pub ghost enum SemType {
    Int,
    Float,
    Bool,
    String,
    Nil,
    List(Box<SemType>),
    Tuple(Seq<SemType>),
    Maybe(Box<SemType>),
    Ident(Seq<char>),
    IdentQualified(Seq<char>, Seq<char>),
    Anonymous,
}

pub open spec fn sem_of(t: Type) -> SemType
    decreases t,
{
    match t {
        Type::Int => SemType::Int,
        Type::Float => SemType::Float,
        Type::Bool => SemType::Bool,
        Type::String => SemType::String,
        Type::Nil => SemType::Nil,
        Type::List(inner) => SemType::List(Box::new(sem_of(*inner))),
        Type::Tuple(items) => SemType::Tuple(
            Seq::new(
                items@.len(),
                |i: int|
                    if 0 <= i < items@.len() {
                        sem_of(items@[i])
                    } else {
                        SemType::Nil
                    },
            ),
        ),
        Type::Maybe(inner) => SemType::Maybe(Box::new(sem_of(*inner))),
        Type::Ident(s) => SemType::Ident(s@),
        Type::IdentQualified(m, n) => SemType::IdentQualified(m@, n@),
        Type::Anonymous => SemType::Anonymous,
    }
}

impl View for Type {
    type V = SemType;

    open spec fn view(&self) -> SemType {
        sem_of(*self)
    }
}

/// Models of a sequence of semantic types.
pub open spec fn sems_of(s: Seq<Type>) -> Seq<SemType> {
    Seq::new(s.len(), |i: int| s[i]@)
}

pub proof fn lemma_sem_tuple(items: Vec<Type>)
    ensures
        sem_of(Type::Tuple(items)) == SemType::Tuple(sems_of(items@)),
{
    let m = sem_of(Type::Tuple(items));
    if let SemType::Tuple(s) = m {
        assert forall|k: int| 0 <= k < s.len() implies s[k] == sems_of(items@)[k] by {
            assert(s[k] == sem_of(items@[k]));
        }
        assert(s =~= sems_of(items@));
    }
}

/// Nesting depth of a semantic type (termination measure).
pub open spec fn sem_depth(t: SemType) -> nat
    decreases t,
{
    match t {
        SemType::List(inner) => sem_depth(*inner) + 1,
        SemType::Maybe(inner) => sem_depth(*inner) + 1,
        SemType::Tuple(items) => sem_depth_seq(items) + 1,
        _ => 0,
    }
}

pub open spec fn sem_depth_seq(s: Seq<SemType>) -> nat
    decreases s,
{
    if s.len() == 0 {
        0
    } else {
        let a = sem_depth_seq(s.drop_last());
        let b = sem_depth(s.last());
        if a < b {
            b
        } else {
            a
        }
    }
}

pub proof fn lemma_sem_depth_bound(s: Seq<SemType>, i: int)
    requires
        0 <= i < s.len(),
    ensures
        sem_depth(s[i]) <= sem_depth_seq(s),
    decreases s.len(),
{
    if i < s.len() - 1 {
        lemma_sem_depth_bound(s.drop_last(), i);
    }
}

/// Text of a string as `{:?}` prints it: quoted, each character escaped
/// as `escape_char` says.
pub open spec fn quoted(s: Seq<char>) -> Seq<char> {
    seq!['"'] + escaped(s) + seq!['"']
}

/// How `char::escape_debug` writes a character beyond ASCII (named, not
/// spelled out here).
pub uninterp spec fn escape_beyond_ascii(c: char) -> Seq<char>;

/// Lower-case hexadecimal digits of `v` (below 256), without leading zeros.
pub open spec fn hex_text(v: int) -> Seq<char> {
    if v < 16 {
        seq![hex_digit(v)]
    } else {
        seq![hex_digit(v / 16), hex_digit(v % 16)]
    }
}

/// How `{:?}` writes a character inside a string: quotes, backslashes, tab,
/// line feed, carriage return and NUL by their escapes; other ASCII control
/// characters as `\u{..}`; other ASCII characters as they are; a character
/// beyond ASCII as `char::escape_debug` writes it.
pub open spec fn escape_char(c: char) -> Seq<char> {
    if c == '"' {
        seq!['\\', '"']
    } else if c == '\\' {
        seq!['\\', '\\']
    } else if c == '\n' {
        seq!['\\', 'n']
    } else if c == '\r' {
        seq!['\\', 'r']
    } else if c == '\t' {
        seq!['\\', 't']
    } else if c == '\0' {
        seq!['\\', '0']
    } else if (c as u32) < 0x20 || (c as u32) == 0x7F {
        seq!['\\', 'u', '{'] + hex_text(c as u32 as int) + seq!['}']
    } else if (c as u32) < 128 {
        seq![c]
    } else {
        escape_beyond_ascii(c)
    }
}

/// `char::escape_debug` of a character beyond ASCII, which is how `{:?}`
/// writes it inside a string.
#[verifier::external_body]
fn escape_debug_beyond_ascii(c: char) -> (r: String)
    requires
        (c as u32) >= 128,
    ensures
        r@ == escape_beyond_ascii(c),
{
    c.escape_debug().to_string()
}

pub open spec fn escaped(s: Seq<char>) -> Seq<char>
    decreases s.len(),
{
    if s.len() == 0 {
        Seq::empty()
    } else {
        escaped(s.drop_last()) + escape_char(s.last())
    }
}

/// Debug text of a semantic type, e.g. `Tuple([Int, Maybe(Bool)])`.
pub open spec fn type_text(t: SemType) -> Seq<char>
    decreases t,
{
    match t {
        SemType::Int => seq!['I', 'n', 't'],
        SemType::Float => seq!['F', 'l', 'o', 'a', 't'],
        SemType::Bool => seq!['B', 'o', 'o', 'l'],
        SemType::String => seq!['S', 't', 'r', 'i', 'n', 'g'],
        SemType::Nil => seq!['N', 'i', 'l'],
        SemType::List(inner) => seq!['L', 'i', 's', 't', '('] + type_text(*inner) + seq![')'],
        SemType::Maybe(inner) => seq!['M', 'a', 'y', 'b', 'e', '('] + type_text(*inner) + seq![')'],
        SemType::Tuple(items) => seq!['T', 'u', 'p', 'l', 'e', '(', '['] + types_text(items) + seq![']', ')'],
        SemType::Ident(s) => seq!['I', 'd', 'e', 'n', 't', '('] + quoted(s) + seq![')'],
        SemType::IdentQualified(m, n) => "IdentQualified(ModuleAlias("@ + quoted(m) + "), "@ + quoted(n) + ")"@,
        SemType::Anonymous => "Anonymous"@,
    }
}

/// Debug texts of types separated by `, `.
pub open spec fn types_text(s: Seq<SemType>) -> Seq<char>
    decreases s,
{
    if s.len() == 0 {
        Seq::empty()
    } else if s.len() == 1 {
        type_text(s[0])
    } else {
        types_text(s.drop_last()) + seq![',', ' '] + type_text(s.last())
    }
}

pub fn push_escaped(out: &mut Vec<char>, s: &str)
    ensures
        final(out)@ == old(out)@ + escaped(s@),
{
    let cs = chars_of(s);
    let mut i: usize = 0;
    while i < cs.len()
        invariant
            i <= cs@.len(),
            cs@ == s@,
            out@ == old(out)@ + escaped(cs@.take(i as int)),
        decreases cs@.len() - i,
    {
        let c = cs[i];
        let ghost before = out@;
        if c == '"' {
            out.push('\\');
            out.push('"');
        } else if c == '\\' {
            out.push('\\');
            out.push('\\');
        } else if c == '\n' {
            out.push('\\');
            out.push('n');
        } else if c == '\r' {
            out.push('\\');
            out.push('r');
        } else if c == '\t' {
            out.push('\\');
            out.push('t');
        } else if c == '\0' {
            out.push('\\');
            out.push('0');
        } else if (c as u32) < 0x20 || (c as u32) == 0x7F {
            let v = c as u32 as u64;
            out.push('\\');
            out.push('u');
            out.push('{');
            if v < 16 {
                out.push(digit_char(v));
            } else {
                out.push(digit_char(v / 16));
                out.push(digit_char(v % 16));
            }
            out.push('}');
        } else if (c as u32) < 128 {
            out.push(c);
        } else {
            let e = escape_debug_beyond_ascii(c);
            let ec = chars_of(e.as_str());
            extend_chars(out, ec.as_slice());
        }
        assert(out@ =~= before + escape_char(c));
        assert(cs@.take(i + 1).drop_last() =~= cs@.take(i as int));
        i = i + 1;
    }
    assert(cs@.take(cs@.len() as int) =~= cs@);
}

pub(crate) fn push_str_chars(out: &mut Vec<char>, s: &str)
    ensures
        final(out)@ == old(out)@ + s@,
{
    let cs = chars_of(s);
    extend_chars(out, cs.as_slice());
}

/// Appends the Debug texts of `items`, separated by `, `.
pub fn write_types_text(items: &Vec<Type>, out: &mut Vec<char>)
    ensures
        final(out)@ == old(out)@ + types_text(sems_of(items@)),
{
    let ghost ms = sems_of(items@);
    let ghost prefix = out@;
    let mut i: usize = 0;
    while i < items.len()
        invariant
            i <= items@.len(),
            ms == sems_of(items@),
            out@ == prefix + types_text(ms.take(i as int)),
        decreases items@.len() - i,
    {
        proof {
            assert(ms.take(i + 1).drop_last() =~= ms.take(i as int));
            assert(ms.take(i + 1).last() == ms[i as int]);
        }
        let ghost before = out@;
        if i > 0 {
            out.push(',');
            out.push(' ');
        }
        items[i].write_text(out);
        proof {
            if i == 0 {
                assert(ms.take(1) =~= seq![ms[0]]);
                assert(before =~= prefix);
            }
        }
        i = i + 1;
    }
    assert(ms.take(items@.len() as int) =~= ms);
}

impl Type {
    /// Appends the Debug text of the type.
    pub fn write_text(&self, out: &mut Vec<char>)
        ensures
            final(out)@ == old(out)@ + type_text(self@),
        decreases sem_depth(self@),
    {
        match self {
            Type::Int => {
                out.push('I'); out.push('n'); out.push('t');
            },
            Type::Float => {
                out.push('F'); out.push('l'); out.push('o'); out.push('a'); out.push('t');
            },
            Type::Bool => {
                out.push('B'); out.push('o'); out.push('o'); out.push('l');
            },
            Type::String => {
                out.push('S'); out.push('t'); out.push('r'); out.push('i'); out.push('n'); out.push('g');
            },
            Type::Nil => {
                out.push('N'); out.push('i'); out.push('l');
            },
            Type::List(inner) => {
                out.push('L'); out.push('i'); out.push('s'); out.push('t'); out.push('(');
                (&**inner).write_text(out);
                out.push(')');
            },
            Type::Maybe(inner) => {
                out.push('M'); out.push('a'); out.push('y'); out.push('b'); out.push('e'); out.push('(');
                (&**inner).write_text(out);
                out.push(')');
            },
            Type::Ident(s) => {
                out.push('I'); out.push('d'); out.push('e'); out.push('n'); out.push('t'); out.push('(');
                out.push('"');
                push_escaped(out, s.as_str());
                out.push('"');
                out.push(')');
            },
            Type::IdentQualified(m, n) => {
                let ghost start = out@;
                push_str_chars(out, "IdentQualified(ModuleAlias(");
                out.push('"');
                let module_text = m.as_string();
                push_escaped(out, module_text.as_str());
                out.push('"');
                push_str_chars(out, "), ");
                out.push('"');
                push_escaped(out, n.as_str());
                out.push('"');
                push_str_chars(out, ")");
                assert(out@ =~= start + type_text(self@));
            },
            Type::Anonymous => {
                push_str_chars(out, "Anonymous");
            },
            Type::Tuple(items) => {
                proof {
                    lemma_sem_tuple(*items);
                }
                let ghost ms = sems_of(items@);
                let ghost start = out@;
                out.push('T'); out.push('u'); out.push('p'); out.push('l'); out.push('e'); out.push('(');
                out.push('[');
                let ghost prefix = out@;
                let mut i: usize = 0;
                while i < items.len()
                    invariant
                        i <= items@.len(),
                        ms == sems_of(items@),
                        self@ == SemType::Tuple(ms),
                        out@ == prefix + types_text(ms.take(i as int)),
                    decreases items@.len() - i,
                {
                    proof {
                        lemma_sem_depth_bound(ms, i as int);
                        assert(ms.take(i + 1).drop_last() =~= ms.take(i as int));
                        assert(ms.take(i + 1).last() == ms[i as int]);
                    }
                    let ghost before = out@;
                    if i > 0 {
                        out.push(',');
                        out.push(' ');
                    }
                    items[i].write_text(out);
                    proof {
                        if i == 0 {
                            assert(ms.take(1) =~= seq![ms[0]]);
                            assert(before =~= prefix);
                        }
                    }
                    i = i + 1;
                }
                assert(ms.take(items@.len() as int) =~= ms);
                out.push(']');
                out.push(')');
            },
        }
    }

    /// A copy with the same model.
    pub fn duplicate(&self) -> (r: Type)
        ensures
            r@ == self@,
        decreases sem_depth(self@),
    {
        match self {
            Type::Int => Type::Int,
            Type::Float => Type::Float,
            Type::Bool => Type::Bool,
            Type::String => Type::String,
            Type::Nil => Type::Nil,
            Type::List(inner) => Type::List(Box::new((&**inner).duplicate())),
            Type::Maybe(inner) => Type::Maybe(Box::new((&**inner).duplicate())),
            Type::Ident(s) => Type::Ident(s.clone()),
            Type::IdentQualified(m, n) => Type::IdentQualified(m.clone_alias(), n.clone()),
            Type::Anonymous => Type::Anonymous,
            Type::Tuple(items) => {
                proof {
                    lemma_sem_tuple(*items);
                }
                let mut out: Vec<Type> = Vec::new();
                let mut i: usize = 0;
                while i < items.len()
                    invariant
                        i <= items@.len(),
                        out@.len() == i,
                        self@ == SemType::Tuple(sems_of(items@)),
                        forall|j: int| 0 <= j < i ==> #[trigger] out@[j]@ == items@[j]@,
                    decreases items@.len() - i,
                {
                    proof {
                        lemma_sem_depth_bound(sems_of(items@), i as int);
                    }
                    out.push(items[i].duplicate());
                    i = i + 1;
                }
                proof {
                    assert(sems_of(out@) =~= sems_of(items@));
                    lemma_sem_tuple(out);
                }
                Type::Tuple(out)
            },
        }
    }

    /// Both types have the same model.
    pub fn same_as(&self, other: &Type) -> (r: bool)
        ensures
            r == (self@ == other@),
        decreases sem_depth(self@),
    {
        match (self, other) {
            (Type::Int, Type::Int) => true,
            (Type::Float, Type::Float) => true,
            (Type::Bool, Type::Bool) => true,
            (Type::String, Type::String) => true,
            (Type::Nil, Type::Nil) => true,
            (Type::List(a), Type::List(b)) => (&**a).same_as(&**b),
            (Type::Maybe(a), Type::Maybe(b)) => (&**a).same_as(&**b),
            (Type::Ident(a), Type::Ident(b)) => *a == *b,
            (Type::IdentQualified(ma, na), Type::IdentQualified(mb, nb)) => ma.same_as(mb) && *na == *nb,
            (Type::Anonymous, Type::Anonymous) => true,
            (Type::Tuple(a), Type::Tuple(b)) => {
                assert(*self == Type::Tuple(*a));
                assert(*other == Type::Tuple(*b));
                proof {
                    lemma_sem_tuple(*a);
                    lemma_sem_tuple(*b);
                }
                let ghost ma = sems_of(a@);
                let ghost mb = sems_of(b@);
                if a.len() != b.len() {
                    assert(ma.len() != mb.len());
                    return false;
                }
                let mut i: usize = 0;
                while i < a.len()
                    invariant
                        i <= a@.len(),
                        a@.len() == b@.len(),
                        ma == sems_of(a@),
                        mb == sems_of(b@),
                        self@ == SemType::Tuple(ma),
                        other@ == SemType::Tuple(mb),
                        forall|j: int| 0 <= j < i ==> #[trigger] ma[j] == mb[j],
                    decreases a@.len() - i,
                {
                    proof {
                        lemma_sem_depth_bound(ma, i as int);
                    }
                    if !a[i].same_as(&b[i]) {
                        assert(ma[i as int] != mb[i as int]);
                        assert(self@ != other@) by {
                            if self@ == other@ {
                                assert(ma == mb);
                            }
                        }
                        return false;
                    }
                    i = i + 1;
                }
                assert(ma =~= mb);
                true
            },
            _ => false,
        }
    }
}

/// Binary operators of the language.
#[derive(Debug, PartialEq, Eq, Clone, Copy)]
pub enum BinaryOp {
    Plus,
    Minus,
    Multiply,
    Divide,
    Greater,
    GreaterEqual,
    Less,
    LessEqual,
    IsEqual,
    IsNotEqual,
    And,
    Or,
}

/// Unary operators of the language.
#[derive(Debug, PartialEq, Eq, Clone, Copy)]
pub enum UnaryOp {
    Not,
    Negate,
}

/// Debug text of a binary operator (its variant name).
pub open spec fn binary_op_text(op: BinaryOp) -> Seq<char> {
    match op {
        BinaryOp::Plus => seq!['P', 'l', 'u', 's'],
        BinaryOp::Minus => seq!['M', 'i', 'n', 'u', 's'],
        BinaryOp::Multiply => seq!['M', 'u', 'l', 't', 'i', 'p', 'l', 'y'],
        BinaryOp::Divide => seq!['D', 'i', 'v', 'i', 'd', 'e'],
        BinaryOp::Greater => seq!['G', 'r', 'e', 'a', 't', 'e', 'r'],
        BinaryOp::GreaterEqual => seq!['G', 'r', 'e', 'a', 't', 'e', 'r', 'E', 'q', 'u', 'a', 'l'],
        BinaryOp::Less => seq!['L', 'e', 's', 's'],
        BinaryOp::LessEqual => seq!['L', 'e', 's', 's', 'E', 'q', 'u', 'a', 'l'],
        BinaryOp::IsEqual => seq!['I', 's', 'E', 'q', 'u', 'a', 'l'],
        BinaryOp::IsNotEqual => seq!['I', 's', 'N', 'o', 't', 'E', 'q', 'u', 'a', 'l'],
        BinaryOp::And => seq!['A', 'n', 'd'],
        BinaryOp::Or => seq!['O', 'r'],
    }
}

impl BinaryOp {
    /// Appends the Debug text of the operator.
    pub fn write_text(&self, out: &mut Vec<char>)
        ensures
            final(out)@ == old(out)@ + binary_op_text(*self),
    {
        let s: &str = match self {
            BinaryOp::Plus => "Plus",
            BinaryOp::Minus => "Minus",
            BinaryOp::Multiply => "Multiply",
            BinaryOp::Divide => "Divide",
            BinaryOp::Greater => "Greater",
            BinaryOp::GreaterEqual => "GreaterEqual",
            BinaryOp::Less => "Less",
            BinaryOp::LessEqual => "LessEqual",
            BinaryOp::IsEqual => "IsEqual",
            BinaryOp::IsNotEqual => "IsNotEqual",
            BinaryOp::And => "And",
            BinaryOp::Or => "Or",
        };
        proof {
            reveal_strlit("Plus");
            reveal_strlit("Minus");
            reveal_strlit("Multiply");
            reveal_strlit("Divide");
            reveal_strlit("Greater");
            reveal_strlit("GreaterEqual");
            reveal_strlit("Less");
            reveal_strlit("LessEqual");
            reveal_strlit("IsEqual");
            reveal_strlit("IsNotEqual");
            reveal_strlit("And");
            reveal_strlit("Or");
        }
        push_str_chars(out, s);
        assert(s@ =~= binary_op_text(*self));
    }
}

/// An import declaration: `from module.sub import Type, func;`.
#[derive(Debug)]
pub struct ImportDecl {
    /// Path to the module, e.g. `from module.sub` gives `["module", "sub"]`.
    pub module: Vec<String>,
    /// Imported user types (names starting with a capital letter).
    pub typenames: Vec<String>,
    pub functions: Vec<String>,
}

/// A named item with its declared type (a field or an argument).
#[derive(Debug)]
pub struct TypedNamedObject {
    pub typename: ParsedType,
    pub name: String,
}

} // verus!
