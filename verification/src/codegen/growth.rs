//! Generating code only adds to the constants table and to the list
//! kinds: what was there stays, in place.
use vstd::prelude::*;

use crate::ast::verified::{VExpr, VExprTyped, VStatement};
use crate::codegen::compile::{gen_expr, gen_exprs, gen_stmt, gen_stmts, GenContext};
use crate::codegen::constants::ConstantModel;
use crate::codegen::metadata::TypeM;

verus! {

/// `new` starts with `old`.
pub open spec fn extends<A>(new: Seq<A>, old: Seq<A>) -> bool {
    old.len() <= new.len() && forall|i: int| 0 <= i < old.len() ==> #[trigger] new[i] == old[i]
}

proof fn lemma_extends_trans<A>(a: Seq<A>, b: Seq<A>, c: Seq<A>)
    requires
        extends(a, b),
        extends(b, c),
    ensures
        extends(a, c),
{
    assert forall|i: int| 0 <= i < c.len() implies #[trigger] a[i] == c[i] by {
        assert(a[i] == b[i]);
    }
}

pub(crate) proof fn lemma_expr_tables(ctx: GenContext, e: VExprTyped, pos: int, consts: Seq<ConstantModel>, lists: Seq<TypeM>)
    ensures
        extends(gen_expr(ctx, e, pos, consts, lists).consts, consts),
        extends(gen_expr(ctx, e, pos, consts, lists).lists, lists),
    decreases e,
{
    match e.expr {
        VExpr::ApplyOp { operator, operands } => {
            lemma_exprs_tables(ctx, operands@, pos, consts, lists);
        },
        VExpr::TernaryOp { condition, if_true, if_false } => {
            let c = gen_expr(ctx, *condition, pos, consts, lists);
            let t = gen_expr(ctx, *if_true, pos + c.bytes.len() + 3, c.consts, c.lists);
            let f = gen_expr(ctx, *if_false, pos + c.bytes.len() + 3 + t.bytes.len() + 3, t.consts, t.lists);
            lemma_expr_tables(ctx, *condition, pos, consts, lists);
            lemma_expr_tables(ctx, *if_true, pos + c.bytes.len() + 3, c.consts, c.lists);
            lemma_expr_tables(ctx, *if_false, pos + c.bytes.len() + 3 + t.bytes.len() + 3, t.consts, t.lists);
            lemma_extends_trans(t.consts, c.consts, consts);
            lemma_extends_trans(f.consts, t.consts, consts);
            lemma_extends_trans(t.lists, c.lists, lists);
            lemma_extends_trans(f.lists, t.lists, lists);
        },
        VExpr::CallFunction { name, return_type, args } => {
            let r = if crate::codegen::compile::is_std_symbol(name@) {
                Seq::<u8>::empty()
            } else {
                crate::codegen::compile::reserve_code(return_type@)
            };
            lemma_exprs_tables(ctx, args@, pos + r.len(), consts, lists);
        },
        VExpr::TupleValue(items) => {
            lemma_exprs_tables(ctx, items@, pos, consts, lists);
        },
        VExpr::ListValue { item_type, items } => {
            let a = gen_exprs(ctx, items@, pos, consts, lists);
            lemma_exprs_tables(ctx, items@, pos, consts, lists);
            assert(extends(crate::codegen::compile::lists_with(a.lists, item_type@), a.lists));
            lemma_extends_trans(crate::codegen::compile::lists_with(a.lists, item_type@), a.lists, lists);
        },
        VExpr::AccessTupleItem { tuple, index } => {
            let it = crate::codegen::utils::subitem(tuple.expr_type@, index as int);
            let r = crate::codegen::compile::reserve_code(it);
            lemma_expr_tables(ctx, *tuple, pos + r.len(), consts, lists);
        },
        VExpr::AccessField { object, field } => {
            lemma_expr_tables(ctx, *object, pos, consts, lists);
        },
        VExpr::AccessListItem { list, index } => {
            let gi = gen_expr(ctx, *index, pos, consts, lists);
            let gl = gen_expr(ctx, *list, pos + gi.bytes.len(), gi.consts, gi.lists);
            lemma_expr_tables(ctx, *index, pos, consts, lists);
            lemma_expr_tables(ctx, *list, pos + gi.bytes.len(), gi.consts, gi.lists);
            lemma_extends_trans(gl.consts, gi.consts, consts);
            lemma_extends_trans(gl.lists, gi.lists, lists);
        },
        VExpr::Spawn { typename, args } => {
            lemma_exprs_tables(ctx, args@, pos + 2, consts, lists);
        },
        _ => {},
    }
}

proof fn lemma_exprs_tables(ctx: GenContext, es: Seq<VExprTyped>, pos: int, consts: Seq<ConstantModel>, lists: Seq<TypeM>)
    ensures
        extends(gen_exprs(ctx, es, pos, consts, lists).consts, consts),
        extends(gen_exprs(ctx, es, pos, consts, lists).lists, lists),
    decreases es,
{
    if es.len() > 0 {
        let g = gen_exprs(ctx, es.drop_last(), pos, consts, lists);
        let h = gen_expr(ctx, es.last(), pos + g.bytes.len(), g.consts, g.lists);
        lemma_exprs_tables(ctx, es.drop_last(), pos, consts, lists);
        lemma_expr_tables(ctx, es.last(), pos + g.bytes.len(), g.consts, g.lists);
        lemma_extends_trans(h.consts, g.consts, consts);
        lemma_extends_trans(h.lists, g.lists, lists);
    }
}

pub(crate) proof fn lemma_stmt_tables(
    ctx: GenContext,
    s: VStatement,
    pos: int,
    consts: Seq<ConstantModel>,
    lists: Seq<TypeM>,
    loop_start: Option<int>,
)
    ensures
        extends(gen_stmt(ctx, s, pos, consts, lists, loop_start).gen.consts, consts),
        extends(gen_stmt(ctx, s, pos, consts, lists, loop_start).gen.lists, lists),
    decreases s,
{
    match s {
        VStatement::Expression(e) => {
            lemma_expr_tables(ctx, e, pos, consts, lists);
        },
        VStatement::AssignLocal { name, tuple_indexes, value } => {
            lemma_expr_tables(ctx, value, pos, consts, lists);
        },
        VStatement::AssignToField { object, field, tuple_indexes, value } => {
            let gv = gen_expr(ctx, value, pos, consts, lists);
            let go = gen_expr(ctx, object, pos + gv.bytes.len(), gv.consts, gv.lists);
            lemma_expr_tables(ctx, value, pos, consts, lists);
            lemma_expr_tables(ctx, object, pos + gv.bytes.len(), gv.consts, gv.lists);
            lemma_extends_trans(go.consts, gv.consts, consts);
            lemma_extends_trans(go.lists, gv.lists, lists);
        },
        VStatement::AssignToList { list, index, tuple_indexes, value } => {
            let gv = gen_expr(ctx, value, pos, consts, lists);
            let gi = gen_expr(ctx, index, pos + gv.bytes.len(), gv.consts, gv.lists);
            let gl = gen_expr(ctx, list, pos + gv.bytes.len() + gi.bytes.len(), gi.consts, gi.lists);
            lemma_expr_tables(ctx, value, pos, consts, lists);
            lemma_expr_tables(ctx, index, pos + gv.bytes.len(), gv.consts, gv.lists);
            lemma_expr_tables(ctx, list, pos + gv.bytes.len() + gi.bytes.len(), gi.consts, gi.lists);
            lemma_extends_trans(gi.consts, gv.consts, consts);
            lemma_extends_trans(gl.consts, gi.consts, consts);
            lemma_extends_trans(gi.lists, gv.lists, lists);
            lemma_extends_trans(gl.lists, gi.lists, lists);
        },
        VStatement::Return(e) => {
            lemma_expr_tables(ctx, e, pos, consts, lists);
        },
        VStatement::IfElse { condition, if_body, else_body } => {
            let c = gen_expr(ctx, condition, pos, consts, lists);
            let ib = gen_stmts(ctx, if_body@, pos + c.bytes.len() + 3, c.consts, c.lists, loop_start);
            lemma_expr_tables(ctx, condition, pos, consts, lists);
            lemma_stmts_tables(ctx, if_body@, pos + c.bytes.len() + 3, c.consts, c.lists, loop_start);
            lemma_extends_trans(ib.gen.consts, c.consts, consts);
            lemma_extends_trans(ib.gen.lists, c.lists, lists);
            if else_body@.len() != 0 {
                let p = pos + c.bytes.len() + 3 + ib.gen.bytes.len() + 3;
                let eb = gen_stmts(ctx, else_body@, p, ib.gen.consts, ib.gen.lists, loop_start);
                lemma_stmts_tables(ctx, else_body@, p, ib.gen.consts, ib.gen.lists, loop_start);
                lemma_extends_trans(eb.gen.consts, ib.gen.consts, consts);
                lemma_extends_trans(eb.gen.lists, ib.gen.lists, lists);
            }
        },
        VStatement::While { condition, body } => {
            let c = gen_expr(ctx, condition, pos, consts, lists);
            let body_start = pos + c.bytes.len() + 3;
            let b = gen_stmts(ctx, body@, body_start, c.consts, c.lists, Some(pos));
            lemma_expr_tables(ctx, condition, pos, consts, lists);
            lemma_stmts_tables(ctx, body@, body_start, c.consts, c.lists, Some(pos));
            lemma_extends_trans(b.gen.consts, c.consts, consts);
            lemma_extends_trans(b.gen.lists, c.lists, lists);
        },
        VStatement::AssignToCurrentActiveField { active_type, field, value, tuple_indexes } => {
            lemma_expr_tables(ctx, value, pos, consts, lists);
        },
        VStatement::SendMessage { active, receiver, args } => {
            let ga = gen_expr(ctx, active, pos, consts, lists);
            let a = gen_exprs(ctx, args@, pos + ga.bytes.len(), ga.consts, ga.lists);
            lemma_expr_tables(ctx, active, pos, consts, lists);
            lemma_exprs_tables(ctx, args@, pos + ga.bytes.len(), ga.consts, ga.lists);
            lemma_extends_trans(a.consts, ga.consts, consts);
            lemma_extends_trans(a.lists, ga.lists, lists);
        },
        _ => {},
    }
}

proof fn lemma_stmts_tables(
    ctx: GenContext,
    ss: Seq<VStatement>,
    pos: int,
    consts: Seq<ConstantModel>,
    lists: Seq<TypeM>,
    loop_start: Option<int>,
)
    ensures
        extends(gen_stmts(ctx, ss, pos, consts, lists, loop_start).gen.consts, consts),
        extends(gen_stmts(ctx, ss, pos, consts, lists, loop_start).gen.lists, lists),
    decreases ss,
{
    if ss.len() > 0 {
        let g = gen_stmts(ctx, ss.drop_last(), pos, consts, lists, loop_start);
        let h = gen_stmt(ctx, ss.last(), pos + g.gen.bytes.len(), g.gen.consts, g.gen.lists, loop_start);
        lemma_stmts_tables(ctx, ss.drop_last(), pos, consts, lists, loop_start);
        lemma_stmt_tables(ctx, ss.last(), pos + g.gen.bytes.len(), g.gen.consts, g.gen.lists, loop_start);
        lemma_extends_trans(h.gen.consts, g.gen.consts, consts);
        lemma_extends_trans(h.gen.lists, g.gen.lists, lists);
    }
}

/// Generating the code of an expression, or of a statement, only adds to
/// the constants table and to the list kinds: every entry that was there
/// stays at its position.
pub proof fn law_generation_keeps_tables(
    ctx: GenContext,
    e: VExprTyped,
    s: VStatement,
    pos: int,
    consts: Seq<ConstantModel>,
    lists: Seq<TypeM>,
    loop_start: Option<int>,
)
    ensures
        extends(gen_expr(ctx, e, pos, consts, lists).consts, consts),
        extends(gen_expr(ctx, e, pos, consts, lists).lists, lists),
        extends(gen_stmt(ctx, s, pos, consts, lists, loop_start).gen.consts, consts),
        extends(gen_stmt(ctx, s, pos, consts, lists, loop_start).gen.lists, lists),
{
    lemma_expr_tables(ctx, e, pos, consts, lists);
    lemma_stmt_tables(ctx, s, pos, consts, lists, loop_start);
}

} // verus!
