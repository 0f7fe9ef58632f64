//! The Debug text of an expression, as type-error messages show it.
use vstd::prelude::*;

use crate::ast::{binary_op_text, push_escaped, push_str_chars, quoted, BinaryOp, UnaryOp};
use crate::semantic_checker::expressions::ExprRaw;
use crate::text::{decimal_i64, decimal_of_int, decimal_of_nat, decimal_u64, extend_chars, string_from_chars};

verus! {

/// The Debug text of a unary operator (its variant name).
pub open spec fn unary_op_text(op: UnaryOp) -> Seq<char> {
    match op {
        UnaryOp::Not => "Not"@,
        UnaryOp::Negate => "Negate"@,
    }
}

/// `true` or `false`.
pub open spec fn bool_text(b: bool) -> Seq<char> {
    if b {
        "true"@
    } else {
        "false"@
    }
}

/// The Debug text of an expression: the variant's name, then its values in
/// brackets, or its fields as `{ name: value, .. }`; names and strings are
/// quoted and escaped, numbers in decimal (a float literal as its bit
/// pattern), lists of expressions in square brackets.
pub closed spec fn expr_text(e: ExprRaw) -> Seq<char>
    decreases e, 1nat,
{
    match e {
        ExprRaw::Int(i) => "Int("@ + decimal_of_int(i as int) + ")"@,
        ExprRaw::String(s) => "String("@ + quoted(s@) + ")"@,
        ExprRaw::Bool(b) => "Bool("@ + bool_text(b) + ")"@,
        ExprRaw::Nil => "Nil"@,
        ExprRaw::Float(bits) => "Float("@ + decimal_of_nat(bits as nat) + ")"@,
        ExprRaw::This => "This"@,
        ExprRaw::Identifier(s) => "Identifier("@ + quoted(s@) + ")"@,
        ExprRaw::UnaryOp { op, operand } => "UnaryOp { op: "@ + unary_op_text(op) + ", operand: "@ + expr_text(*operand)
            + " }"@,
        ExprRaw::BinOp { left, right, op } => "BinOp { left: "@ + expr_text(*left) + ", right: "@ + expr_text(*right)
            + ", op: "@ + binary_op_text(op) + " }"@,
        ExprRaw::ListAccess { list, index } => "ListAccess { list: "@ + expr_text(*list) + ", index: "@ + expr_text(
            *index,
        ) + " }"@,
        ExprRaw::ListValue(v) => "ListValue(["@ + items_text(v@) + "])"@,
        ExprRaw::TupleValue(v) => "TupleValue(["@ + items_text(v@) + "])"@,
        ExprRaw::FunctionCall { function, args } => "FunctionCall { function: "@ + quoted(function@) + ", args: ["@
            + items_text(args@) + "] }"@,
        ExprRaw::MethodCall { object, method, args } => "MethodCall { object: "@ + expr_text(*object) + ", method: "@
            + quoted(method@) + ", args: ["@ + items_text(args@) + "] }"@,
        ExprRaw::FieldAccess { object, field } => "FieldAccess { object: "@ + expr_text(*object) + ", field: "@ + quoted(
            field@,
        ) + " }"@,
        ExprRaw::OwnMethodCall { method, args } => "OwnMethodCall { method: "@ + quoted(method@) + ", args: ["@
            + items_text(args@) + "] }"@,
        ExprRaw::OwnFieldAccess { field } => "OwnFieldAccess { field: "@ + quoted(field@) + " }"@,
        ExprRaw::NewClassInstance { typename, args } => "NewClassInstance { typename: "@ + quoted(typename@)
            + ", args: ["@ + items_text(args@) + "] }"@,
        ExprRaw::SpawnActive { typename, args } => "SpawnActive { typename: "@ + quoted(typename@) + ", args: ["@
            + items_text(args@) + "] }"@,
    }
}

/// The Debug texts of expressions, separated by `, `.
pub closed spec fn items_text(es: Seq<ExprRaw>) -> Seq<char>
    decreases es, 0nat,
{
    if es.len() == 0 {
        Seq::empty()
    } else if es.len() == 1 {
        expr_text(es[0])
    } else {
        items_text(es.drop_last()) + ", "@ + expr_text(es.last())
    }
}

/// The Debug text of a list of expressions: their texts in square
/// brackets.
pub open spec fn exprs_text(es: Seq<ExprRaw>) -> Seq<char> {
    "["@ + items_text(es) + "]"@
}

fn write_quoted(out: &mut Vec<char>, s: &str)
    ensures
        final(out)@ == old(out)@ + quoted(s@),
{
    out.push('"');
    push_escaped(out, s);
    out.push('"');
}

fn write_unary(op: &UnaryOp, out: &mut Vec<char>)
    ensures
        final(out)@ == old(out)@ + unary_op_text(*op),
{
    match op {
        UnaryOp::Not => push_str_chars(out, "Not"),
        UnaryOp::Negate => push_str_chars(out, "Negate"),
    }
}

fn write_items(es: &Vec<ExprRaw>, out: &mut Vec<char>)
    ensures
        final(out)@ == old(out)@ + items_text(es@),
    decreases es@, 0nat,
{
    let ghost start = out@;
    let mut i: usize = 0;
    assert(items_text(es@.take(0)) =~= Seq::<char>::empty()) by {
        assert(es@.take(0).len() == 0);
    }
    while i < es.len()
        invariant
            i <= es@.len(),
            out@ == start + items_text(es@.take(i as int)),
        decreases es@.len() - i,
    {
        let ghost before = out@;
        if i > 0 {
            push_str_chars(out, ", ");
        }
        write_expr(&es[i], out);
        proof {
            let t = es@.take(i + 1);
            assert(t.drop_last() =~= es@.take(i as int));
            assert(t.last() == es@[i as int]);
            if i == 0 {
                assert(t[0] == es@[0]);
                assert(out@ =~= start + items_text(t));
            } else {
                assert(out@ =~= start + items_text(t));
            }
        }
        i = i + 1;
    }
    assert(es@.take(es@.len() as int) =~= es@);
}

/// Appends the Debug text of `e` (see `expr_text`).
pub fn write_expr(e: &ExprRaw, out: &mut Vec<char>)
    ensures
        final(out)@ == old(out)@ + expr_text(*e),
    decreases *e, 1nat,
{
    let ghost start = out@;
    match e {
        ExprRaw::Int(i) => {
            push_str_chars(out, "Int(");
            let d = decimal_i64(*i);
            extend_chars(out, d.as_slice());
            push_str_chars(out, ")");
        },
        ExprRaw::String(s) => {
            push_str_chars(out, "String(");
            write_quoted(out, s.as_str());
            push_str_chars(out, ")");
        },
        ExprRaw::Bool(b) => {
            push_str_chars(out, "Bool(");
            if *b {
                push_str_chars(out, "true");
            } else {
                push_str_chars(out, "false");
            }
            push_str_chars(out, ")");
        },
        ExprRaw::Nil => push_str_chars(out, "Nil"),
        ExprRaw::Float(bits) => {
            push_str_chars(out, "Float(");
            let d = decimal_u64(*bits);
            extend_chars(out, d.as_slice());
            push_str_chars(out, ")");
        },
        ExprRaw::This => push_str_chars(out, "This"),
        ExprRaw::Identifier(s) => {
            push_str_chars(out, "Identifier(");
            write_quoted(out, s.as_str());
            push_str_chars(out, ")");
        },
        ExprRaw::UnaryOp { op, operand } => {
            push_str_chars(out, "UnaryOp { op: ");
            write_unary(op, out);
            push_str_chars(out, ", operand: ");
            write_expr(&**operand, out);
            push_str_chars(out, " }");
        },
        ExprRaw::BinOp { left, right, op } => {
            push_str_chars(out, "BinOp { left: ");
            write_expr(&**left, out);
            push_str_chars(out, ", right: ");
            write_expr(&**right, out);
            push_str_chars(out, ", op: ");
            op.write_text(out);
            push_str_chars(out, " }");
        },
        ExprRaw::ListAccess { list, index } => {
            push_str_chars(out, "ListAccess { list: ");
            write_expr(&**list, out);
            push_str_chars(out, ", index: ");
            write_expr(&**index, out);
            push_str_chars(out, " }");
        },
        ExprRaw::ListValue(v) => {
            push_str_chars(out, "ListValue([");
            write_items(v, out);
            push_str_chars(out, "])");
        },
        ExprRaw::TupleValue(v) => {
            push_str_chars(out, "TupleValue([");
            write_items(v, out);
            push_str_chars(out, "])");
        },
        ExprRaw::FunctionCall { function, args } => {
            push_str_chars(out, "FunctionCall { function: ");
            write_quoted(out, function.as_str());
            push_str_chars(out, ", args: [");
            write_items(args, out);
            push_str_chars(out, "] }");
        },
        ExprRaw::MethodCall { object, method, args } => {
            push_str_chars(out, "MethodCall { object: ");
            write_expr(&**object, out);
            push_str_chars(out, ", method: ");
            write_quoted(out, method.as_str());
            push_str_chars(out, ", args: [");
            write_items(args, out);
            push_str_chars(out, "] }");
        },
        ExprRaw::FieldAccess { object, field } => {
            push_str_chars(out, "FieldAccess { object: ");
            write_expr(&**object, out);
            push_str_chars(out, ", field: ");
            write_quoted(out, field.as_str());
            push_str_chars(out, " }");
        },
        ExprRaw::OwnMethodCall { method, args } => {
            push_str_chars(out, "OwnMethodCall { method: ");
            write_quoted(out, method.as_str());
            push_str_chars(out, ", args: [");
            write_items(args, out);
            push_str_chars(out, "] }");
        },
        ExprRaw::OwnFieldAccess { field } => {
            push_str_chars(out, "OwnFieldAccess { field: ");
            write_quoted(out, field.as_str());
            push_str_chars(out, " }");
        },
        ExprRaw::NewClassInstance { typename, args } => {
            push_str_chars(out, "NewClassInstance { typename: ");
            write_quoted(out, typename.as_str());
            push_str_chars(out, ", args: [");
            write_items(args, out);
            push_str_chars(out, "] }");
        },
        ExprRaw::SpawnActive { typename, args } => {
            push_str_chars(out, "SpawnActive { typename: ");
            write_quoted(out, typename.as_str());
            push_str_chars(out, ", args: [");
            write_items(args, out);
            push_str_chars(out, "] }");
        },
    }
    assert(out@ =~= start + expr_text(*e));
}

/// The Debug text of an expression (see `expr_text`).
pub fn expr_debug(e: &ExprRaw) -> (r: String)
    ensures
        r@ == expr_text(*e),
{
    let mut out: Vec<char> = Vec::new();
    write_expr(e, &mut out);
    assert(out@ =~= expr_text(*e));
    string_from_chars(out.as_slice())
}

/// The Debug text of a list of expressions (see `exprs_text`).
pub fn exprs_debug(es: &Vec<ExprRaw>) -> (r: String)
    ensures
        r@ == exprs_text(es@),
{
    let mut out: Vec<char> = Vec::new();
    push_str_chars(&mut out, "[");
    write_items(es, &mut out);
    push_str_chars(&mut out, "]");
    assert(out@ =~= exprs_text(es@));
    string_from_chars(out.as_slice())
}

} // verus!
