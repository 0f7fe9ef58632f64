//! The printed form of the verified intermediate representation. Float
//! literals stay apart as their bit pattern, for the caller to print.
use vstd::prelude::*;

use crate::ast::verified::{RawFunction, RawOperator, VExpr, VExprTyped, VStatement};
use crate::symbols::qualified_text;
use crate::text::{chars_of, decimal_of_int, decimal_of_nat};
use crate::types::type_display;

verus! {

/// A piece of printed text over characters `C`: a character, or a float
/// literal (the bit pattern of its IEEE-754 double value).
#[derive(Debug, Clone, Copy, PartialEq, Eq)]
pub enum Piece<C> {
    Letter(C),
    Float(u64),
}

/// A piece of printed text.
pub type TextPiece = Piece<char>;

/// Plain text as pieces.
pub open spec fn pieces_of(s: Seq<char>) -> Seq<TextPiece>
    decreases s.len(),
{
    if s.len() == 0 {
        Seq::empty()
    } else {
        pieces_of(s.drop_last()).push(Piece::Letter(s.last()))
    }
}

/// Plain text, as a printed form that exists.
pub open spec fn lit(s: Seq<char>) -> Option<Seq<TextPiece>> {
    Some(pieces_of(s))
}

/// Two printed forms one after the other; none if either is missing.
pub open spec fn cat(a: Option<Seq<TextPiece>>, b: Option<Seq<TextPiece>>) -> Option<Seq<TextPiece>> {
    match (a, b) {
        (Some(x), Some(y)) => Some(x + y),
        _ => None,
    }
}

/// The symbol of an operator.
#[verifier::opaque]
pub open spec fn operator_symbol(op: RawOperator) -> Seq<char> {
    match op {
        RawOperator::UnaryNegateInt => "-"@,
        RawOperator::AddInts => "+"@,
        RawOperator::SubInts => "-"@,
        RawOperator::MulInts => "*"@,
        RawOperator::DivInts => "/"@,
        RawOperator::GreaterInts => ">"@,
        RawOperator::LessInts => "<"@,
        RawOperator::EqualInts => "=="@,
        RawOperator::UnaryNegateFloat => "-"@,
        RawOperator::AddFloats => "+"@,
        RawOperator::SubFloats => "-"@,
        RawOperator::MulFloats => "*"@,
        RawOperator::DivFloats => "/"@,
        RawOperator::GreaterFloats => ">"@,
        RawOperator::LessFloats => "<"@,
        RawOperator::EqualFloats => "=="@,
        RawOperator::UnaryNegateBool => "!"@,
        RawOperator::EqualBools => "=="@,
        RawOperator::AndBools => "&&"@,
        RawOperator::OrBools => "||"@,
        RawOperator::EqualStrings => "=="@,
        RawOperator::AddStrings => "+"@,
    }
}

/// The printed form of a typed expression: that of its expression.
pub open spec fn typed_shown(e: VExprTyped) -> Option<Seq<TextPiece>>
    decreases e, 3nat,
{
    expr_shown(e.expr)
}

/// The printed form of an expression; none where an operator is applied
/// to other than one or two operands.
pub open spec fn expr_shown(e: VExpr) -> Option<Seq<TextPiece>>
    decreases e, 2nat,
{
    match e {
        VExpr::Int(i) => lit(decimal_of_int(i as int)),
        VExpr::String(s) => lit("\""@ + s@ + "\""@),
        VExpr::Bool(b) => lit(if b { "true"@ } else { "false"@ }),
        VExpr::Float(bits) => Some(seq![Piece::Float(bits)]),
        VExpr::Dummy(t) => lit("@dummy("@ + type_display(t@) + ")"@),
        VExpr::GetVar(name) => lit(name@),
        VExpr::AccessTupleItem { tuple, index } => cat(typed_shown(*tuple), lit("["@ + decimal_of_nat(index as nat) + "]"@)),
        VExpr::TupleValue(items) => cat(cat(lit("("@), joined(items@)), lit(")"@)),
        VExpr::ListValue { items, .. } => cat(cat(lit("["@), joined(items@)), lit("]"@)),
        VExpr::CompareMaybe { left, right, .. } => cat(
            cat(cat(lit("@comp_maybe("@), typed_shown(*left)), lit(" = "@)),
            cat(typed_shown(*right), lit(")"@)),
        ),
        VExpr::ApplyOp { operator, operands } => if operands@.len() == 1 {
            cat(lit("("@ + operator_symbol(operator) + " "@), cat(typed_shown(operands@[0]), lit(")"@)))
        } else if operands@.len() == 2 {
            cat(
                cat(lit("("@), typed_shown(operands@[0])),
                cat(lit(" "@ + operator_symbol(operator) + " "@), cat(typed_shown(operands@[1]), lit(")"@))),
            )
        } else {
            None
        },
        VExpr::TernaryOp { condition, if_true, if_false } => cat(
            cat(cat(lit("("@), typed_shown(*condition)), cat(lit(" ? "@), typed_shown(*if_true))),
            cat(lit(" : "@), cat(typed_shown(*if_false), lit(")"@))),
        ),
        VExpr::CallFunction { name, args, .. } => cat(
            lit(qualified_text(name@.0, name@.1) + "("@),
            cat(joined(args@), lit(")"@)),
        ),
        VExpr::AccessField { object, field } => cat(typed_shown(*object), lit("."@ + field@)),
        VExpr::AccessListItem { list, index } => cat(
            cat(typed_shown(*list), lit("["@)),
            cat(typed_shown(*index), lit("]"@)),
        ),
        VExpr::Allocate { typename } => lit("new "@ + qualified_text(typename@.0, typename@.1)),
        VExpr::Spawn { typename, args } => cat(
            lit("spawn "@ + qualified_text(typename@.0, typename@.1) + "("@),
            cat(joined(args@), lit(")"@)),
        ),
        VExpr::CurrentActive => lit("this"@),
        VExpr::CurrentActiveField { field, .. } => lit("@"@ + field@),
    }
}

/// The printed forms of `items`, separated by `, `.
pub open spec fn joined(items: Seq<VExprTyped>) -> Option<Seq<TextPiece>>
    decreases items, 1nat,
{
    if items.len() == 0 {
        Some(Seq::empty())
    } else if items.len() == 1 {
        typed_shown(items[0])
    } else {
        cat(cat(joined(items.drop_last()), lit(", "@)), typed_shown(items.last()))
    }
}

/// `[i]` for each tuple index, in order.
pub open spec fn tuple_indexes_text(idx: Seq<usize>) -> Seq<char>
    decreases idx.len(),
{
    if idx.len() == 0 {
        Seq::empty()
    } else {
        tuple_indexes_text(idx.drop_last()) + "["@ + decimal_of_nat(idx.last() as nat) + "]"@
    }
}

/// `text` with four spaces put before each of its lines.
pub open spec fn indent(text: Seq<TextPiece>) -> Seq<TextPiece> {
    pieces_of("    "@) + indent_rest(text)
}

/// `text` with four spaces put after each line break.
pub open spec fn indent_rest(text: Seq<TextPiece>) -> Seq<TextPiece>
    decreases text.len(),
{
    if text.len() == 0 {
        Seq::empty()
    } else {
        indent_rest(text.drop_last()) + if text.last() == Piece::Letter('\n') {
            pieces_of("\n    "@)
        } else {
            seq![text.last()]
        }
    }
}

/// The printed form of a statement, before indentation.
pub open spec fn stmt_core(s: VStatement) -> Option<Seq<TextPiece>>
    decreases s, 2nat,
{
    match s {
        VStatement::IfElse { condition, if_body, else_body } => cat(
            cat(cat(lit("\nif "@), typed_shown(condition)), cat(lit(" {\n"@), stmts_joined(if_body@))),
            cat(lit("\n} else {\n"@), cat(stmts_joined(else_body@), lit("\n}\n"@))),
        ),
        VStatement::While { condition, body } => cat(
            cat(lit("\nwhile "@), typed_shown(condition)),
            cat(lit(" {\n"@), cat(stmts_joined(body@), lit("\n}\n"@))),
        ),
        VStatement::Break => lit("break;"@),
        VStatement::Continue => lit("continue;"@),
        VStatement::Return(e) => cat(lit("return "@), cat(typed_shown(e), lit(";"@))),
        VStatement::AssignLocal { name, tuple_indexes, value } => cat(
            lit(name@ + tuple_indexes_text(tuple_indexes@) + " = "@),
            cat(typed_shown(value), lit(";"@)),
        ),
        VStatement::AssignToField { object, field, tuple_indexes, value } => cat(
            cat(typed_shown(object), lit("."@ + field@ + tuple_indexes_text(tuple_indexes@) + " = "@)),
            cat(typed_shown(value), lit(";"@)),
        ),
        VStatement::AssignToList { list, index, tuple_indexes, value } => cat(
            cat(cat(typed_shown(list), lit("["@)), cat(typed_shown(index), lit("]"@ + tuple_indexes_text(tuple_indexes@) + " = "@))),
            cat(typed_shown(value), lit(";"@)),
        ),
        VStatement::AssignToCurrentActiveField { field, value, tuple_indexes, .. } => cat(
            lit("@"@ + field@ + tuple_indexes_text(tuple_indexes@) + " = "@),
            cat(typed_shown(value), lit(";"@)),
        ),
        VStatement::SendMessage { active, receiver, args } => cat(
            cat(typed_shown(active), lit(" <- "@ + qualified_text(receiver@.0, receiver@.1) + "("@)),
            cat(joined(args@), lit(");"@)),
        ),
        VStatement::Expression(e) => cat(typed_shown(e), lit(";"@)),
    }
}

/// The printed form of a statement, indented when `with_ident` holds.
pub open spec fn stmt_shown(s: VStatement, with_ident: bool) -> Option<Seq<TextPiece>>
    decreases s, 3nat,
{
    match stmt_core(s) {
        Some(text) => Some(if with_ident { indent(text) } else { text }),
        None => None,
    }
}

/// The indented printed forms of `ss`, one per line.
pub open spec fn stmts_joined(ss: Seq<VStatement>) -> Option<Seq<TextPiece>>
    decreases ss, 1nat,
{
    if ss.len() == 0 {
        Some(Seq::empty())
    } else if ss.len() == 1 {
        stmt_shown(ss[0], true)
    } else {
        cat(cat(stmts_joined(ss.drop_last()), lit("\n"@)), stmt_shown(ss.last(), true))
    }
}

/// `<type> <name>` for each of the first `k` arguments, separated by `, `.
pub open spec fn args_text(types: Seq<crate::types::TypeModel<(Seq<char>, Seq<char>)>>, names: Seq<Seq<char>>, k: int) -> Seq<char>
    decreases k,
{
    if k <= 0 {
        Seq::empty()
    } else if k == 1 {
        type_display(types[0]) + " "@ + names[0]
    } else {
        args_text(types, names, k - 1) + ", "@ + type_display(types[k - 1]) + " "@ + names[k - 1]
    }
}

/// The number of arguments: names and types go in pairs.
pub open spec fn args_count(f: RawFunction) -> int {
    if f.args.types@.len() < f.args.names@.len() {
        f.args.types@.len() as int
    } else {
        f.args.names@.len() as int
    }
}

/// `    <type> <name>;` for each local, one per line.
pub open spec fn locals_lines(locals: Seq<(String, crate::types::VerifiedType)>) -> Seq<char>
    decreases locals.len(),
{
    if locals.len() == 0 {
        Seq::empty()
    } else if locals.len() == 1 {
        "    "@ + type_display(locals[0].1@) + " "@ + locals[0].0@ + ";"@
    } else {
        locals_lines(locals.drop_last()) + "\n    "@ + type_display(locals.last().1@) + " "@ + locals.last().0@ + ";"@
    }
}

/// The locals block of a function: empty without locals.
pub open spec fn locals_text(locals: Seq<(String, crate::types::VerifiedType)>) -> Seq<char> {
    if locals.len() == 0 {
        Seq::empty()
    } else {
        "    // LOCALS START\n"@ + locals_lines(locals) + "\n    // LOCALS_END\n\n"@
    }
}

/// The printed form of a function.
pub open spec fn function_shown(f: RawFunction) -> Option<Seq<TextPiece>> {
    cat(
        lit(
            "fn "@ + type_display(f.return_type@) + " "@ + qualified_text(f.name@.0, f.name@.1) + " ("@
                + args_text(f.args.type_models(), f.args.name_texts(), args_count(f)) + ") {\n"@ + locals_text(f.locals@),
        ),
        cat(stmts_joined(f.body@), lit("\n }"@)),
    )
}

} // verus!

verus! {

fn put_chars(out: &mut Vec<TextPiece>, cs: &[char])
    ensures
        final(out)@ == old(out)@ + pieces_of(cs@),
{
    let ghost start = out@;
    let mut i: usize = 0;
    assert(cs@.take(0) =~= Seq::<char>::empty());
    assert(out@ =~= start + pieces_of(cs@.take(0)));
    while i < cs.len()
        invariant
            i <= cs@.len(),
            out@ == start + pieces_of(cs@.take(i as int)),
        decreases cs@.len() - i,
    {
        out.push(Piece::Letter(cs[i]));
        assert(cs@.take(i + 1).drop_last() =~= cs@.take(i as int));
        assert(out@ =~= start + pieces_of(cs@.take(i + 1)));
        i = i + 1;
    }
    assert(cs@.take(cs@.len() as int) =~= cs@);
}

fn put(out: &mut Vec<TextPiece>, s: &str)
    ensures
        final(out)@ == old(out)@ + pieces_of(s@),
{
    let cs = chars_of(s);
    put_chars(out, cs.as_slice());
}

fn append_pieces(out: &mut Vec<TextPiece>, pieces: &Vec<TextPiece>)
    ensures
        final(out)@ == old(out)@ + pieces@,
{
    let ghost start = out@;
    let mut i: usize = 0;
    assert(out@ =~= start + pieces@.take(0));
    while i < pieces.len()
        invariant
            i <= pieces@.len(),
            out@ == start + pieces@.take(i as int),
        decreases pieces@.len() - i,
    {
        out.push(pieces[i]);
        assert(out@ =~= start + pieces@.take(i + 1));
        i = i + 1;
    }
    assert(pieces@.take(pieces@.len() as int) =~= pieces@);
}

proof fn lemma_text_of_add(a: Seq<char>, b: Seq<char>)
    ensures
        pieces_of(a + b) == pieces_of(a) + pieces_of(b),
    decreases b.len(),
{
    if b.len() == 0 {
        assert(a + b =~= a);
        assert(pieces_of(a) + pieces_of(b) =~= pieces_of(a));
    } else {
        lemma_text_of_add(a, b.drop_last());
        assert((a + b).drop_last() =~= a + b.drop_last());
        assert(pieces_of(a) + pieces_of(b) =~= (pieces_of(a) + pieces_of(b.drop_last())).push(Piece::Letter(b.last())));
    }
}

impl RawOperator {
    /// The operator's symbol, as printed.
    pub fn text(&self) -> (r: &'static str)
        ensures
            r@ == operator_symbol(*self),
    {
        reveal(operator_symbol);
        match self {
            RawOperator::UnaryNegateInt => "-",
            RawOperator::AddInts => "+",
            RawOperator::SubInts => "-",
            RawOperator::MulInts => "*",
            RawOperator::DivInts => "/",
            RawOperator::GreaterInts => ">",
            RawOperator::LessInts => "<",
            RawOperator::EqualInts => "==",
            RawOperator::UnaryNegateFloat => "-",
            RawOperator::AddFloats => "+",
            RawOperator::SubFloats => "-",
            RawOperator::MulFloats => "*",
            RawOperator::DivFloats => "/",
            RawOperator::GreaterFloats => ">",
            RawOperator::LessFloats => "<",
            RawOperator::EqualFloats => "==",
            RawOperator::UnaryNegateBool => "!",
            RawOperator::EqualBools => "==",
            RawOperator::AndBools => "&&",
            RawOperator::OrBools => "||",
            RawOperator::EqualStrings => "==",
            RawOperator::AddStrings => "+",
        }
    }
}

fn write_typed(e: &VExprTyped, out: &mut Vec<TextPiece>)
    requires
        typed_shown(*e) is Some,
    ensures
        final(out)@ == old(out)@ + typed_shown(*e)->0,
    decreases *e, 3nat,
{
    write_expr(&e.expr, out);
}

fn write_joined(items: &Vec<VExprTyped>, out: &mut Vec<TextPiece>)
    requires
        joined(items@) is Some,
    ensures
        final(out)@ == old(out)@ + joined(items@)->0,
    decreases items@, 1nat,
{
    let ghost start = out@;
    let mut i: usize = 0;
    while i < items.len()
        invariant
            i <= items@.len(),
            joined(items@) is Some,
            joined(items@.take(i as int)) is Some,
            out@ == start + joined(items@.take(i as int))->0,
        decreases items@.len() - i,
    {
        proof {
            lemma_joined_prefix(items@, i + 1);
            assert(items@.take(i + 1).drop_last() =~= items@.take(i as int));
            assert(items@.take(i + 1).last() == items@[i as int]);
            if i == 0 {
                assert(items@.take(1)[0] == items@[0]);
            }
        }
        let ghost before = out@;
        if i > 0 {
            put(out, ", ");
        }
        write_typed(&items[i], out);
        proof {
            reveal_strlit(", ");
            if i == 0 {
                assert(items@.take(0) =~= Seq::<VExprTyped>::empty());
                assert(out@ =~= start + joined(items@.take(1))->0);
            } else {
                assert(out@ =~= start + joined(items@.take(i + 1))->0);
            }
        }
        i = i + 1;
    }
    assert(items@.take(items@.len() as int) =~= items@);
}

proof fn lemma_joined_prefix(items: Seq<VExprTyped>, k: int)
    requires
        0 <= k <= items.len(),
        joined(items) is Some,
    ensures
        joined(items.take(k)) is Some,
        0 < k ==> typed_shown(items[k - 1]) is Some,
    decreases items.len() - k,
{
    if k < items.len() {
        lemma_joined_prefix(items, k + 1);
        assert(items.take(k + 1).drop_last() =~= items.take(k));
        assert(items.take(k + 1).last() == items[k]);
        if k > 0 {
            assert(items.take(k + 1)[k - 1] == items[k - 1]);
            if k == 1 {
                assert(items.take(1)[0] == items[0]);
            }
        }
    } else {
        assert(items.take(k) =~= items);
        if k == 1 {
            assert(items[0] == items.take(1)[0]);
        } else if k > 1 {
            assert(items.drop_last().take(k - 1) =~= items.drop_last());
        }
    }
}

#[verifier::spinoff_prover]
fn write_leaf(e: &VExpr, out: &mut Vec<TextPiece>)
    requires
        e is Allocate || e is Bool || e is CurrentActive || e is CurrentActiveField || e is Dummy || e is Float || e is GetVar || e is Int || e is String,
        expr_shown(*e) is Some,
    ensures
        final(out)@ == old(out)@ + expr_shown(*e)->0,
{
    let ghost start = out@;
    match e {
        VExpr::Int(i) => {
            let d = crate::text::decimal_i64(*i);
            put_chars(out, d.as_slice());
        },
        VExpr::String(s) => {
            put(out, "\"");
            put(out, s.as_str());
            put(out, "\"");
            proof {
                reveal_strlit("\"");
                lemma_text_of_add("\""@, s@);
                lemma_text_of_add("\""@ + s@, "\""@);
            }
            assert(out@ =~= start + expr_shown(*e)->0);
        },
        VExpr::Bool(b) => {
            if *b {
                put(out, "true");
            } else {
                put(out, "false");
            }
        },
        VExpr::Float(bits) => {
            out.push(Piece::Float(*bits));
            assert(out@ =~= start + seq![Piece::Float(*bits)]);
        },
        VExpr::Dummy(t) => {
            put(out, "@dummy(");
            let tt = t.text();
            put_chars(out, tt.as_slice());
            put(out, ")");
            proof {
                lemma_text_of_add("@dummy("@, type_display(t@));
                lemma_text_of_add("@dummy("@ + type_display(t@), ")"@);
            }
            assert(out@ =~= start + expr_shown(*e)->0);
        },
        VExpr::GetVar(name) => {
            put(out, name.as_str());
        },
        VExpr::Allocate { typename } => {
            put(out, "new ");
            let n = typename.text();
            put_chars(out, n.as_slice());
            proof {
                lemma_text_of_add("new "@, qualified_text(typename@.0, typename@.1));
            }
            assert(out@ =~= start + expr_shown(*e)->0);
        },
        VExpr::CurrentActive => {
            put(out, "this");
        },
        VExpr::CurrentActiveField { field, .. } => {
            put(out, "@");
            put(out, field.as_str());
            proof {
                lemma_text_of_add("@"@, field@);
            }
            assert(out@ =~= start + expr_shown(*e)->0);
        },
        _ => {},
    }
}

#[verifier::spinoff_prover]
fn write_nested(e: &VExpr, out: &mut Vec<TextPiece>)
    requires
        e is AccessField || e is AccessListItem || e is AccessTupleItem || e is CompareMaybe || e is ListValue || e is TupleValue,
        expr_shown(*e) is Some,
    ensures
        final(out)@ == old(out)@ + expr_shown(*e)->0,
    decreases *e, 1nat,
{
    let ghost start = out@;
    match e {
        VExpr::AccessTupleItem { tuple, index } => {
            write_typed(&**tuple, out);
            put(out, "[");
            let d = crate::text::decimal_u64(*index as u64);
            put_chars(out, d.as_slice());
            put(out, "]");
            proof {
                lemma_text_of_add("["@, decimal_of_nat(*index as nat));
                lemma_text_of_add("["@ + decimal_of_nat(*index as nat), "]"@);
            }
            assert(out@ =~= start + expr_shown(*e)->0);
        },
        VExpr::TupleValue(items) => {
            put(out, "(");
            write_joined(items, out);
            put(out, ")");
            assert(out@ =~= start + expr_shown(*e)->0);
        },
        VExpr::ListValue { items, .. } => {
            put(out, "[");
            write_joined(items, out);
            put(out, "]");
            assert(out@ =~= start + expr_shown(*e)->0);
        },
        VExpr::CompareMaybe { left, right, .. } => {
            put(out, "@comp_maybe(");
            write_typed(&**left, out);
            put(out, " = ");
            write_typed(&**right, out);
            put(out, ")");
            assert(out@ =~= start + expr_shown(*e)->0);
        },
        VExpr::AccessField { object, field } => {
            write_typed(&**object, out);
            put(out, ".");
            put(out, field.as_str());
            proof {
                lemma_text_of_add("."@, field@);
            }
            assert(out@ =~= start + expr_shown(*e)->0);
        },
        VExpr::AccessListItem { list, index } => {
            write_typed(&**list, out);
            put(out, "[");
            write_typed(&**index, out);
            put(out, "]");
            assert(out@ =~= start + expr_shown(*e)->0);
        },
        _ => {},
    }
}

/// An operator applied to one operand: `(op a)`.
#[verifier::spinoff_prover]
fn write_unary(e: &VExpr, out: &mut Vec<TextPiece>)
    requires
        e matches VExpr::ApplyOp { operands, .. } && operands@.len() == 1,
        expr_shown(*e) is Some,
    ensures
        final(out)@ == old(out)@ + expr_shown(*e)->0,
    decreases *e, 1nat,
{
    let ghost start = out@;
    if let VExpr::ApplyOp { operator, operands } = e {
        let ghost sym = operator_symbol(*operator);
        let ghost a = typed_shown(operands@[0])->0;
        assert(expr_shown(*e) == Some(pieces_of("("@ + sym + " "@) + (a + pieces_of(")"@))));
        put(out, "(");
        put(out, operator.text());
        put(out, " ");
        write_typed(&operands[0], out);
        put(out, ")");
        proof {
            lemma_text_of_add("("@, sym);
            lemma_text_of_add("("@ + sym, " "@);
        }
        assert(out@ =~= start + (pieces_of("("@ + sym + " "@) + (a + pieces_of(")"@))));
    }
}

/// An operator applied to two operands: `(a op b)`.
#[verifier::spinoff_prover]
fn write_binary(e: &VExpr, out: &mut Vec<TextPiece>)
    requires
        e matches VExpr::ApplyOp { operands, .. } && operands@.len() == 2,
        expr_shown(*e) is Some,
    ensures
        final(out)@ == old(out)@ + expr_shown(*e)->0,
    decreases *e, 1nat,
{
    let ghost start = out@;
    if let VExpr::ApplyOp { operator, operands } = e {
        let ghost sym = operator_symbol(*operator);
        let ghost a = typed_shown(operands@[0])->0;
        let ghost b = typed_shown(operands@[1])->0;
        assert(expr_shown(*e) == Some(
            (pieces_of("("@) + a) + (pieces_of(" "@ + sym + " "@) + (b + pieces_of(")"@))),
        ));
        put(out, "(");
        write_typed(&operands[0], out);
        put(out, " ");
        put(out, operator.text());
        put(out, " ");
        write_typed(&operands[1], out);
        put(out, ")");
        proof {
            lemma_text_of_add(" "@, sym);
            lemma_text_of_add(" "@ + sym, " "@);
        }
        assert(out@ =~= start + ((pieces_of("("@) + a) + (pieces_of(" "@ + sym + " "@) + (b + pieces_of(")"@)))));
    }
}

#[verifier::spinoff_prover]
fn write_ternary_op(e: &VExpr, out: &mut Vec<TextPiece>)
    requires
        e is TernaryOp,
        expr_shown(*e) is Some,
    ensures
        final(out)@ == old(out)@ + expr_shown(*e)->0,
    decreases *e, 1nat,
{
    let ghost start = out@;
    match e {
        VExpr::TernaryOp { condition, if_true, if_false } => {
            put(out, "(");
            write_typed(&**condition, out);
            put(out, " ? ");
            write_typed(&**if_true, out);
            put(out, " : ");
            write_typed(&**if_false, out);
            put(out, ")");
            assert(out@ =~= start + expr_shown(*e)->0);
        },
        _ => {},
    }
}

#[verifier::spinoff_prover]
fn write_call_function(e: &VExpr, out: &mut Vec<TextPiece>)
    requires
        e is CallFunction,
        expr_shown(*e) is Some,
    ensures
        final(out)@ == old(out)@ + expr_shown(*e)->0,
    decreases *e, 1nat,
{
    let ghost start = out@;
    match e {
        VExpr::CallFunction { name, args, .. } => {
            let n = name.text();
            put_chars(out, n.as_slice());
            put(out, "(");
            write_joined(args, out);
            put(out, ")");
            proof {
                lemma_text_of_add(qualified_text(name@.0, name@.1), "("@);
            }
            assert(out@ =~= start + expr_shown(*e)->0);
        },
        _ => {},
    }
}

#[verifier::spinoff_prover]
fn write_spawn(e: &VExpr, out: &mut Vec<TextPiece>)
    requires
        e is Spawn,
        expr_shown(*e) is Some,
    ensures
        final(out)@ == old(out)@ + expr_shown(*e)->0,
    decreases *e, 1nat,
{
    let ghost start = out@;
    match e {
        VExpr::Spawn { typename, args } => {
            put(out, "spawn ");
            let n = typename.text();
            put_chars(out, n.as_slice());
            put(out, "(");
            write_joined(args, out);
            put(out, ")");
            proof {
                lemma_text_of_add("spawn "@, qualified_text(typename@.0, typename@.1));
                lemma_text_of_add("spawn "@ + qualified_text(typename@.0, typename@.1), "("@);
            }
            assert(out@ =~= start + expr_shown(*e)->0);
        },
        _ => {},
    }
}

fn write_expr(e: &VExpr, out: &mut Vec<TextPiece>)
    requires
        expr_shown(*e) is Some,
    ensures
        final(out)@ == old(out)@ + expr_shown(*e)->0,
    decreases *e, 2nat,
{
    match e {
        VExpr::Int(..) => write_leaf(e, out),
        VExpr::String(..) => write_leaf(e, out),
        VExpr::Bool(..) => write_leaf(e, out),
        VExpr::Float(..) => write_leaf(e, out),
        VExpr::Dummy(..) => write_leaf(e, out),
        VExpr::GetVar(..) => write_leaf(e, out),
        VExpr::Allocate { .. } => write_leaf(e, out),
        VExpr::CurrentActiveField { .. } => write_leaf(e, out),
        VExpr::CurrentActive => write_leaf(e, out),
        VExpr::AccessTupleItem { .. } => write_nested(e, out),
        VExpr::TupleValue(..) => write_nested(e, out),
        VExpr::ListValue { .. } => write_nested(e, out),
        VExpr::CompareMaybe { .. } => write_nested(e, out),
        VExpr::AccessField { .. } => write_nested(e, out),
        VExpr::AccessListItem { .. } => write_nested(e, out),
        VExpr::ApplyOp { operands, .. } => {
            if operands.len() == 1 {
                write_unary(e, out);
            } else {
                write_binary(e, out);
            }
        },
        VExpr::TernaryOp { .. } => write_ternary_op(e, out),
        VExpr::CallFunction { .. } => write_call_function(e, out),
        VExpr::Spawn { .. } => write_spawn(e, out),
    }
}

impl VExpr {
    /// The printed form of the expression (see `expr_shown`).
    pub fn display(&self) -> (r: Vec<TextPiece>)
        requires
            expr_shown(*self) is Some,
        ensures
            Some(r@) == expr_shown(*self),
    {
        let mut out: Vec<TextPiece> = Vec::new();
        write_expr(self, &mut out);
        assert(out@ =~= expr_shown(*self)->0);
        out
    }
}

} // verus!

verus! {

/// `[i]` for each tuple index, as characters.
fn tuple_indexes_chars(tuple_indexes: &[usize]) -> (r: Vec<char>)
    ensures
        r@ == tuple_indexes_text(tuple_indexes@),
{
    let mut r: Vec<char> = Vec::new();
    let mut i: usize = 0;
    assert(tuple_indexes@.take(0) =~= Seq::<usize>::empty());
    while i < tuple_indexes.len()
        invariant
            i <= tuple_indexes@.len(),
            r@ == tuple_indexes_text(tuple_indexes@.take(i as int)),
        decreases tuple_indexes@.len() - i,
    {
        let ghost before = r@;
        r.push('[');
        let d = crate::text::decimal_u64(tuple_indexes[i] as u64);
        crate::text::extend_chars(&mut r, d.as_slice());
        r.push(']');
        proof {
            assert(tuple_indexes@.take(i + 1).drop_last() =~= tuple_indexes@.take(i as int));
            assert(tuple_indexes@.take(i + 1).last() == tuple_indexes@[i as int]);
            reveal_strlit("[");
            reveal_strlit("]");
            assert(r@ =~= before + "["@ + decimal_of_nat(tuple_indexes@[i as int] as nat) + "]"@);
        }
        i = i + 1;
    }
    assert(tuple_indexes@.take(tuple_indexes@.len() as int) =~= tuple_indexes@);
    r
}

/// Appends `text` with four spaces before each of its lines.
fn write_indented(text: &Vec<TextPiece>, out: &mut Vec<TextPiece>)
    ensures
        final(out)@ == old(out)@ + indent(text@),
{
    let ghost start = out@;
    put(out, "    ");
    let ghost after_prefix = out@;
    let mut i: usize = 0;
    assert(text@.take(0) =~= Seq::<TextPiece>::empty());
    while i < text.len()
        invariant
            i <= text@.len(),
            after_prefix == start + pieces_of("    "@),
            out@ == after_prefix + indent_rest(text@.take(i as int)),
        decreases text@.len() - i,
    {
        let piece = text[i];
        let is_newline = match piece {
            Piece::Letter(c) => c == '\n',
            Piece::Float(_) => false,
        };
        let ghost before = out@;
        if is_newline {
            put(out, "\n    ");
        } else {
            out.push(piece);
        }
        proof {
            assert(text@.take(i + 1).drop_last() =~= text@.take(i as int));
            assert(text@.take(i + 1).last() == piece);
            assert(is_newline == (piece == Piece::<char>::Letter('\n')));
            assert(out@ =~= after_prefix + indent_rest(text@.take(i + 1)));
        }
        i = i + 1;
    }
    assert(text@.take(text@.len() as int) =~= text@);
    assert(out@ =~= start + indent(text@));
}

proof fn lemma_stmts_prefix(ss: Seq<VStatement>, k: int)
    requires
        0 <= k <= ss.len(),
        stmts_joined(ss) is Some,
    ensures
        stmts_joined(ss.take(k)) is Some,
        0 < k ==> stmt_shown(ss[k - 1], true) is Some,
    decreases ss.len() - k,
{
    if k < ss.len() {
        lemma_stmts_prefix(ss, k + 1);
        assert(ss.take(k + 1).drop_last() =~= ss.take(k));
        assert(ss.take(k + 1).last() == ss[k]);
        if k > 0 {
            assert(ss.take(k + 1)[k - 1] == ss[k - 1]);
            if k == 1 {
                assert(ss.take(1)[0] == ss[0]);
            }
        }
    } else {
        assert(ss.take(k) =~= ss);
        if k == 1 {
            assert(ss[0] == ss.take(1)[0]);
        } else if k > 1 {
            assert(ss.drop_last().take(k - 1) =~= ss.drop_last());
        }
    }
}

/// Appends the indented printed forms of `ss`, one per line.
fn write_stmts(ss: &Vec<VStatement>, out: &mut Vec<TextPiece>)
    requires
        stmts_joined(ss@) is Some,
    ensures
        final(out)@ == old(out)@ + stmts_joined(ss@)->0,
    decreases ss@, 1nat,
{
    let ghost start = out@;
    let mut i: usize = 0;
    while i < ss.len()
        invariant
            i <= ss@.len(),
            stmts_joined(ss@) is Some,
            stmts_joined(ss@.take(i as int)) is Some,
            out@ == start + stmts_joined(ss@.take(i as int))->0,
        decreases ss@.len() - i,
    {
        proof {
            lemma_stmts_prefix(ss@, i + 1);
            assert(ss@.take(i + 1).drop_last() =~= ss@.take(i as int));
            assert(ss@.take(i + 1).last() == ss@[i as int]);
            if i == 0 {
                assert(ss@.take(1)[0] == ss@[0]);
            }
        }
        if i > 0 {
            put(out, "\n");
        }
        write_stmt(&ss[i], true, out);
        proof {
            if i == 0 {
                assert(ss@.take(0) =~= Seq::<VStatement>::empty());
                assert(out@ =~= start + stmts_joined(ss@.take(1))->0);
            } else {
                assert(out@ =~= start + stmts_joined(ss@.take(i + 1))->0);
            }
        }
        i = i + 1;
    }
    assert(ss@.take(ss@.len() as int) =~= ss@);
}

/// Appends the printed form of a statement, indented when `with_ident`.
fn write_stmt(s: &VStatement, with_ident: bool, out: &mut Vec<TextPiece>)
    requires
        stmt_shown(*s, with_ident) is Some,
    ensures
        final(out)@ == old(out)@ + stmt_shown(*s, with_ident)->0,
    decreases *s, 3nat,
{
    let mut core: Vec<TextPiece> = Vec::new();
    write_stmt_core(s, &mut core);
    assert(core@ =~= stmt_core(*s)->0);
    if with_ident {
        write_indented(&core, out);
    } else {
        append_pieces(out, &core);
    }
}

fn write_stmt_core(s: &VStatement, out: &mut Vec<TextPiece>)
    requires
        stmt_core(*s) is Some,
    ensures
        final(out)@ == old(out)@ + stmt_core(*s)->0,
    decreases *s, 2nat,
{
    match s {
        VStatement::IfElse { .. } => write_if_else(s, out),
        VStatement::While { .. } => write_while(s, out),
        VStatement::AssignToField { .. } => write_assign_to_field(s, out),
        VStatement::AssignToList { .. } => write_assign_to_list(s, out),
        VStatement::SendMessage { .. } => write_send_message(s, out),
        _ => write_simple_stmt(s, out),
    }
}

#[verifier::spinoff_prover]
fn write_if_else(s: &VStatement, out: &mut Vec<TextPiece>)
    requires
        s is IfElse,
        stmt_core(*s) is Some,
    ensures
        final(out)@ == old(out)@ + stmt_core(*s)->0,
    decreases *s, 1nat,
{
    let ghost start = out@;
    if let VStatement::IfElse { condition, if_body, else_body } = s {
        put(out, "\nif ");
        write_typed(condition, out);
        put(out, " {\n");
        write_stmts(if_body, out);
        put(out, "\n} else {\n");
        write_stmts(else_body, out);
        put(out, "\n}\n");
        assert(out@ =~= start + stmt_core(*s)->0);
    }
}

#[verifier::spinoff_prover]
fn write_while(s: &VStatement, out: &mut Vec<TextPiece>)
    requires
        s is While,
        stmt_core(*s) is Some,
    ensures
        final(out)@ == old(out)@ + stmt_core(*s)->0,
    decreases *s, 1nat,
{
    let ghost start = out@;
    if let VStatement::While { condition, body } = s {
        put(out, "\nwhile ");
        write_typed(condition, out);
        put(out, " {\n");
        write_stmts(body, out);
        put(out, "\n}\n");
        assert(out@ =~= start + stmt_core(*s)->0);
    }
}

#[verifier::spinoff_prover]
fn write_assign_to_field(s: &VStatement, out: &mut Vec<TextPiece>)
    requires
        s is AssignToField,
        stmt_core(*s) is Some,
    ensures
        final(out)@ == old(out)@ + stmt_core(*s)->0,
{
    let ghost start = out@;
    if let VStatement::AssignToField { object, field, tuple_indexes, value } = s {
        write_typed(object, out);
        put(out, ".");
        put(out, field.as_str());
        let idx = tuple_indexes_chars(tuple_indexes.as_slice());
        put_chars(out, idx.as_slice());
        put(out, " = ");
        write_typed(value, out);
        put(out, ";");
        proof {
            lemma_text_of_add("."@, field@);
            lemma_text_of_add("."@ + field@, tuple_indexes_text(tuple_indexes@));
            lemma_text_of_add("."@ + field@ + tuple_indexes_text(tuple_indexes@), " = "@);
        }
        assert(out@ =~= start + stmt_core(*s)->0);
    }
}

#[verifier::spinoff_prover]
fn write_assign_to_list(s: &VStatement, out: &mut Vec<TextPiece>)
    requires
        s is AssignToList,
        stmt_core(*s) is Some,
    ensures
        final(out)@ == old(out)@ + stmt_core(*s)->0,
{
    let ghost start = out@;
    if let VStatement::AssignToList { list, index, tuple_indexes, value } = s {
        write_typed(list, out);
        put(out, "[");
        write_typed(index, out);
        put(out, "]");
        let idx = tuple_indexes_chars(tuple_indexes.as_slice());
        put_chars(out, idx.as_slice());
        put(out, " = ");
        write_typed(value, out);
        put(out, ";");
        proof {
            lemma_text_of_add("]"@, tuple_indexes_text(tuple_indexes@));
            lemma_text_of_add("]"@ + tuple_indexes_text(tuple_indexes@), " = "@);
        }
        assert(out@ =~= start + stmt_core(*s)->0);
    }
}

#[verifier::spinoff_prover]
fn write_send_message(s: &VStatement, out: &mut Vec<TextPiece>)
    requires
        s is SendMessage,
        stmt_core(*s) is Some,
    ensures
        final(out)@ == old(out)@ + stmt_core(*s)->0,
{
    let ghost start = out@;
    if let VStatement::SendMessage { active, receiver, args } = s {
        write_typed(active, out);
        put(out, " <- ");
        let n = receiver.text();
        put_chars(out, n.as_slice());
        put(out, "(");
        write_joined(args, out);
        put(out, ");");
        proof {
            lemma_text_of_add(" <- "@, qualified_text(receiver@.0, receiver@.1));
            lemma_text_of_add(" <- "@ + qualified_text(receiver@.0, receiver@.1), "("@);
        }
        assert(out@ =~= start + stmt_core(*s)->0);
    }
}

#[verifier::spinoff_prover]
#[verifier::rlimit(30)]
fn write_simple_stmt(s: &VStatement, out: &mut Vec<TextPiece>)
    requires
        !(s is IfElse || s is While || s is AssignToField || s is AssignToList || s is SendMessage),
        stmt_core(*s) is Some,
    ensures
        final(out)@ == old(out)@ + stmt_core(*s)->0,
{
    let ghost start = out@;
    match s {
        VStatement::Break => {
            put(out, "break;");
        },
        VStatement::Continue => {
            put(out, "continue;");
        },
        VStatement::Return(e) => {
            put(out, "return ");
            write_typed(e, out);
            put(out, ";");
            assert(out@ =~= start + stmt_core(*s)->0);
        },
        VStatement::AssignLocal { name, tuple_indexes, value } => {
            put(out, name.as_str());
            let idx = tuple_indexes_chars(tuple_indexes.as_slice());
            put_chars(out, idx.as_slice());
            put(out, " = ");
            write_typed(value, out);
            put(out, ";");
            proof {
                lemma_text_of_add(name@, tuple_indexes_text(tuple_indexes@));
                lemma_text_of_add(name@ + tuple_indexes_text(tuple_indexes@), " = "@);
            }
            assert(out@ =~= start + stmt_core(*s)->0);
        },
        VStatement::AssignToCurrentActiveField { field, value, tuple_indexes, .. } => {
            put(out, "@");
            put(out, field.as_str());
            let idx = tuple_indexes_chars(tuple_indexes.as_slice());
            put_chars(out, idx.as_slice());
            put(out, " = ");
            write_typed(value, out);
            put(out, ";");
            proof {
                lemma_text_of_add("@"@, field@);
                lemma_text_of_add("@"@ + field@, tuple_indexes_text(tuple_indexes@));
                lemma_text_of_add("@"@ + field@ + tuple_indexes_text(tuple_indexes@), " = "@);
            }
            assert(out@ =~= start + stmt_core(*s)->0);
        },
        VStatement::Expression(e) => {
            write_typed(e, out);
            put(out, ";");
        },
        _ => {},
    }
}

impl VStatement {
    /// The printed form of the statement, each line indented by four
    /// spaces when `with_ident` holds (see `stmt_shown`).
    pub fn display_with_ident(&self, with_ident: bool) -> (r: Vec<TextPiece>)
        requires
            stmt_shown(*self, with_ident) is Some,
        ensures
            Some(r@) == stmt_shown(*self, with_ident),
    {
        let mut out: Vec<TextPiece> = Vec::new();
        write_stmt(self, with_ident, &mut out);
        assert(out@ =~= stmt_shown(*self, with_ident)->0);
        out
    }

    /// `[i]` for each tuple index, in order.
    pub fn show_tuple_indexes(&self, tuple_indexes: &[usize]) -> (r: String)
        ensures
            r@ == tuple_indexes_text(tuple_indexes@),
    {
        let cs = tuple_indexes_chars(tuple_indexes);
        crate::text::string_from_chars(cs.as_slice())
    }
}

} // verus!

verus! {

fn push_str(out: &mut Vec<char>, s: &str)
    ensures
        final(out)@ == old(out)@ + s@,
{
    let cs = chars_of(s);
    crate::text::extend_chars(out, cs.as_slice());
}

impl RawFunction {
    /// The printed form of the function's header and locals, up to the
    /// body.
    fn header_chars(&self) -> (r: Vec<char>)
        ensures
            r@ == "fn "@ + type_display(self.return_type@) + " "@ + qualified_text(self.name@.0, self.name@.1) + " ("@
                + args_text(self.args.type_models(), self.args.name_texts(), args_count(*self)) + ") {\n"@
                + locals_text(self.locals@),
    {
        let mut r = chars_of("fn ");
        let t = self.return_type.text();
        crate::text::extend_chars(&mut r, t.as_slice());
        push_str(&mut r, " ");
        let n = self.name.text();
        crate::text::extend_chars(&mut r, n.as_slice());
        push_str(&mut r, " (");
        let ghost prefix = r@;
        let count: usize = if self.args.types.len() < self.args.names.len() {
            self.args.types.len()
        } else {
            self.args.names.len()
        };
        let ghost tm = self.args.type_models();
        let ghost nt = self.args.name_texts();
        let mut i: usize = 0;
        while i < count
            invariant
                i <= count,
                count == args_count(*self),
                count <= self.args.types@.len(),
                count <= self.args.names@.len(),
                tm == self.args.type_models(),
                nt == self.args.name_texts(),
                r@ == prefix + args_text(tm, nt, i as int),
            decreases count - i,
        {
            let ghost before = r@;
            if i > 0 {
                push_str(&mut r, ", ");
            }
            let t = self.args.types[i].text();
            crate::text::extend_chars(&mut r, t.as_slice());
            push_str(&mut r, " ");
            let name = chars_of(self.args.names[i].as_str());
            crate::text::extend_chars(&mut r, name.as_slice());
            proof {
                assert(tm[i as int] == self.args.types@[i as int]@);
                assert(nt[i as int] == self.args.names@[i as int]@);
                if i == 0 {
                    assert(r@ =~= prefix + args_text(tm, nt, 1));
                } else {
                    assert(r@ =~= prefix + args_text(tm, nt, i + 1));
                }
            }
            i = i + 1;
        }
        push_str(&mut r, ") {\n");
        if self.locals.len() > 0 {
            push_str(&mut r, "    // LOCALS START\n");
            let ghost before_lines = r@;
            let mut k: usize = 0;
            assert(self.locals@.take(0) =~= Seq::<(String, crate::types::VerifiedType)>::empty());
            while k < self.locals.len()
                invariant
                    k <= self.locals@.len(),
                    r@ == before_lines + locals_lines(self.locals@.take(k as int)),
                decreases self.locals@.len() - k,
            {
                let ghost before = r@;
                if k > 0 {
                    push_str(&mut r, "\n");
                }
                push_str(&mut r, "    ");
                let t = self.locals[k].1.text();
                crate::text::extend_chars(&mut r, t.as_slice());
                push_str(&mut r, " ");
                let name = chars_of(self.locals[k].0.as_str());
                crate::text::extend_chars(&mut r, name.as_slice());
                push_str(&mut r, ";");
                proof {
                    let l = self.locals@.take(k + 1);
                    assert(l.drop_last() =~= self.locals@.take(k as int));
                    assert(l.last() == self.locals@[k as int]);
                    if k == 0 {
                        assert(l[0] == self.locals@[0]);
                        assert(r@ =~= before_lines + locals_lines(l));
                    } else {
                        reveal_strlit("\n");
                        reveal_strlit("    ");
                        reveal_strlit("\n    ");
                        assert(r@ =~= before_lines + locals_lines(l));
                    }
                }
                k = k + 1;
            }
            assert(self.locals@.take(self.locals@.len() as int) =~= self.locals@);
            push_str(&mut r, "\n    // LOCALS_END\n\n");
        }
        r
    }

    /// The printed form of the function (see `function_shown`).
    pub fn display(&self) -> (r: Vec<TextPiece>)
        requires
            function_shown(*self) is Some,
        ensures
            Some(r@) == function_shown(*self),
    {
        let head = self.header_chars();
        let mut out: Vec<TextPiece> = Vec::new();
        put_chars(&mut out, head.as_slice());
        write_stmts(&self.body, &mut out);
        put(&mut out, "\n }");
        assert(out@ =~= function_shown(*self)->0);
        out
    }
}

} // verus!
