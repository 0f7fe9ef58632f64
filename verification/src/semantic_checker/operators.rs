//! Result types of unary and binary operators.
use vstd::prelude::*;

use crate::ast::{binary_op_text, type_text, BinaryOp, SemType, Type, UnaryOp};
use crate::text::{chars_of, extend_chars, string_from_chars};

verus! {

/// Two types are the same, or one is a maybe-type whose payload is the
/// other type or whose other side is `Nil`.
pub open spec fn same_or_maybe(left: SemType, right: SemType) -> bool {
    match (left, right) {
        (SemType::Maybe(t1), t2) => *t1 == t2 || t2 == SemType::Nil,
        (t1, SemType::Maybe(t2)) => t1 == *t2 || t1 == SemType::Nil,
        _ => left == right,
    }
}

/// Result type of a unary operator, or the error message.
pub open spec fn unaryop_result(op: UnaryOp, operand: SemType) -> Result<SemType, Seq<char>> {
    match (op, operand) {
        (UnaryOp::Negate, SemType::Int) => Ok(SemType::Int),
        (UnaryOp::Negate, SemType::Float) => Ok(SemType::Float),
        (UnaryOp::Negate, t) => Err(
            seq!['C', 'a', 'n', 't', ' ', 'a', 'p', 'p', 'l', 'y', ' ', 'N', 'e', 'g', 'a', 't', 'e', ' ', 't', 'o', ' ']
                + type_text(t) + seq![' ', 't', 'y', 'p', 'e'],
        ),
        (UnaryOp::Not, SemType::Bool) => Ok(SemType::Bool),
        (UnaryOp::Not, t) => Err(
            seq!['C', 'a', 'n', 't', ' ', 'a', 'p', 'p', 'l', 'y', ' ', 'N', 'O', 'T', ' ', 't', 'o', ' ']
                + type_text(t) + seq![' ', 't', 'y', 'p', 'e'],
        ),
    }
}

/// `Cant apply <op> to <left> and <right>`.
pub open spec fn binaryop_error(op: BinaryOp, left: SemType, right: SemType) -> Seq<char> {
    seq!['C', 'a', 'n', 't', ' ', 'a', 'p', 'p', 'l', 'y', ' '] + binary_op_text(op) + seq![' ', 't', 'o', ' ']
        + type_text(left) + seq![' ', 'a', 'n', 'd', ' '] + type_text(right)
}

/// Result type of a binary operator, or the error message. Arithmetic and
/// ordering operators keep the operand type; equality gives `Bool`.
pub open spec fn binaryop_result(op: BinaryOp, left: SemType, right: SemType) -> Result<SemType, Seq<char>> {
    let ok = match op {
        BinaryOp::Plus => left == right && (left is Int || left is Float || left is String || left is List),
        BinaryOp::Minus | BinaryOp::Multiply | BinaryOp::Divide | BinaryOp::Greater
        | BinaryOp::GreaterEqual | BinaryOp::Less | BinaryOp::LessEqual => left == right && (left is Int || left is Float),
        BinaryOp::IsEqual | BinaryOp::IsNotEqual => same_or_maybe(left, right),
        BinaryOp::And | BinaryOp::Or => left == right && left is Bool,
    };
    let t = match op {
        BinaryOp::IsEqual | BinaryOp::IsNotEqual | BinaryOp::And | BinaryOp::Or => SemType::Bool,
        _ => left,
    };
    if ok {
        Ok(t)
    } else {
        Err(binaryop_error(op, left, right))
    }
}

/// The result of a typing step on executable values matches the model.
pub open spec fn result_matches(r: Result<Type, String>, m: Result<SemType, Seq<char>>) -> bool {
    match r {
        Ok(t) => m == Ok::<SemType, Seq<char>>(t@),
        Err(e) => m == Err::<SemType, Seq<char>>(e@),
    }
}

fn push_text(out: &mut Vec<char>, s: &str)
    ensures
        final(out)@ == old(out)@ + s@,
{
    let cs = chars_of(s);
    extend_chars(out, cs.as_slice());
}

/// Type of a unary operation on an operand of type `operand`.
pub fn calculate_unaryop_type(operator: &UnaryOp, operand: &Type) -> (r: Result<Type, String>)
    ensures
        result_matches(r, unaryop_result(*operator, operand@)),
{
    match (operator, operand) {
        (UnaryOp::Negate, Type::Int) => Ok(Type::Int),
        (UnaryOp::Negate, Type::Float) => Ok(Type::Float),
        (UnaryOp::Negate, t) => {
            let mut m: Vec<char> = Vec::new();
            let prefix = "Cant apply Negate to ";
            let suffix = " type";
            proof {
                reveal_strlit("Cant apply Negate to ");
                reveal_strlit(" type");
            }
            push_text(&mut m, prefix);
            t.write_text(&mut m);
            push_text(&mut m, suffix);
            let msg = string_from_chars(m.as_slice());
            assert(msg@ =~= unaryop_result(*operator, operand@)->Err_0);
            Err(msg)
        },
        (UnaryOp::Not, Type::Bool) => Ok(Type::Bool),
        (UnaryOp::Not, t) => {
            let mut m: Vec<char> = Vec::new();
            let prefix = "Cant apply NOT to ";
            let suffix = " type";
            proof {
                reveal_strlit("Cant apply NOT to ");
                reveal_strlit(" type");
            }
            push_text(&mut m, prefix);
            t.write_text(&mut m);
            push_text(&mut m, suffix);
            let msg = string_from_chars(m.as_slice());
            assert(msg@ =~= unaryop_result(*operator, operand@)->Err_0);
            Err(msg)
        },
    }
}

fn binaryop_error_text(operator: &BinaryOp, left: &Type, right: &Type) -> (r: String)
    ensures
        r@ == binaryop_error(*operator, left@, right@),
{
    let mut m: Vec<char> = Vec::new();
    proof {
        reveal_strlit("Cant apply ");
        reveal_strlit(" to ");
        reveal_strlit(" and ");
    }
    push_text(&mut m, "Cant apply ");
    operator.write_text(&mut m);
    push_text(&mut m, " to ");
    left.write_text(&mut m);
    push_text(&mut m, " and ");
    right.write_text(&mut m);
    let r = string_from_chars(m.as_slice());
    assert(r@ =~= binaryop_error(*operator, left@, right@));
    r
}

/// Type of a binary operation on operands of types `left` and `right`.
pub fn calculate_binaryop_type(operator: &BinaryOp, left: &Type, right: &Type) -> (r: Result<Type, String>)
    ensures
        result_matches(r, binaryop_result(*operator, left@, right@)),
{
    let same = left.same_as(right);
    let ok = match operator {
        BinaryOp::Plus => same && match left {
            Type::Int | Type::Float | Type::String | Type::List(..) => true,
            _ => false,
        },
        BinaryOp::Minus | BinaryOp::Multiply | BinaryOp::Divide | BinaryOp::Greater
        | BinaryOp::GreaterEqual | BinaryOp::Less | BinaryOp::LessEqual => same && match left {
            Type::Int | Type::Float => true,
            _ => false,
        },
        BinaryOp::IsEqual | BinaryOp::IsNotEqual => are_types_same_or_maybe(left, right),
        BinaryOp::And | BinaryOp::Or => same && match left {
            Type::Bool => true,
            _ => false,
        },
    };
    if ok {
        match operator {
            BinaryOp::IsEqual | BinaryOp::IsNotEqual | BinaryOp::And | BinaryOp::Or => Ok(Type::Bool),
            _ => Ok(left.duplicate()),
        }
    } else {
        Err(binaryop_error_text(operator, left, right))
    }
}

/// Whether values of the two types may be compared for equality.
pub fn are_types_same_or_maybe(left: &Type, right: &Type) -> (r: bool)
    ensures
        r == same_or_maybe(left@, right@),
{
    match (left, right) {
        (Type::Maybe(t1), t2) => (&**t1).same_as(t2) || match t2 {
            Type::Nil => true,
            _ => false,
        },
        (t1, Type::Maybe(t2)) => t1.same_as(&**t2) || match t1 {
            Type::Nil => true,
            _ => false,
        },
        _ => left.same_as(right),
    }
}

/// `+` is defined exactly on two operands of one type that can be added:
/// numbers, strings and lists; its result has that type. On any other pair
/// (two truth values, two tuples, nil, mixed types) it is refused with the
/// message naming the operator and both types.
pub proof fn law_plus_adds_numbers_strings_and_lists(left: SemType, right: SemType)
    ensures
        binaryop_result(BinaryOp::Plus, left, right) is Ok <==> left == right && (left is Int || left is Float
            || left is String || left is List),
        binaryop_result(BinaryOp::Plus, left, right) matches Ok(t) ==> t == left,
        !(binaryop_result(BinaryOp::Plus, left, right) is Ok) ==> binaryop_result(BinaryOp::Plus, left, right)
            == Err::<SemType, Seq<char>>(binaryop_error(BinaryOp::Plus, left, right)),
{
}

/// Arithmetic and logic never meet: no pair of operand types is accepted both
/// by a logical operator (`and`, `or`) and by an arithmetic one (`+`, `-`,
/// `*`, `/`); the logical operators take only truth values, the arithmetic
/// ones never do.
pub proof fn law_arithmetic_and_logic_are_apart(logic: BinaryOp, arith: BinaryOp, left: SemType, right: SemType)
    requires
        logic is And || logic is Or,
        arith is Plus || arith is Minus || arith is Multiply || arith is Divide,
    ensures
        !(binaryop_result(logic, left, right) is Ok && binaryop_result(arith, left, right) is Ok),
        binaryop_result(logic, left, right) is Ok ==> left is Bool && right is Bool,
        binaryop_result(arith, left, right) is Ok ==> !(left is Bool) && !(right is Bool),
{
}

} // verus!
