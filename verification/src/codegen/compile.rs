//! What the code generator emits for expressions and statements.
//!
//! The emitted bytes of a construct do not depend on where it is placed,
//! except for the positions recorded for call placeholders; jump offsets
//! are relative to the jump. Generating also grows the constants table and
//! the list kinds table, so both are threaded through.
use vstd::prelude::*;

use crate::ast::verified::{RawOperator, VExpr, VExprTyped, VStatement};
use crate::codegen::constants::{with_constant, ConstantModel};
use crate::codegen::encoding::u16_be;
use crate::codegen::metadata::{
    entry_value, last_index_of, CustomTypeMetadata, CustomTypesMetadataTable, SymbolModel, TypeM,
};
use crate::codegen::utils::{index_ok, size_of, sizes_sum, subitem, subitem_at, tuple_offset, valid_path};
use crate::runtime::opcodes::{
    ADD_FLOAT, ADD_INT, ADD_STRINGS, ALLOCATE, ALLOCATE_LIST, AND_BOOL, CALL, CALL_STD, CURRENT_ACTIVE, DIV_FLOAT,
    DIV_INT, EQ_BOOL, EQ_FLOAT, EQ_INT, EQ_STRINGS, GET_CURRENT_ACTIVE_FIELD, GET_LIST_ITEM, GET_LOCAL, GET_OBJ_FIELD,
    GET_TUPLE_ITEM, GREATER_FLOAT, GREATER_INT, JUMP, JUMP_BACK, JUMP_IF_FALSE, LESS_FLOAT, LESS_INT, LOAD_CONST,
    LOAD_FALSE, LOAD_SMALL_INT, LOAD_TRUE, MUL_FLOAT, MUL_INT, NEGATE_BOOL, NEGATE_FLOAT, NEGATE_INT, OR_BOOL, POP,
    RESERVE, RETURN, SEND_MESSAGE, SET_CURRENT_ACTIVE_FIELD, SET_LIST_ITEM, SET_LOCAL, SET_OBJ_FIELD, SPAWN, SUB_FLOAT,
    SUB_INT,
};
use crate::runtime::stdlib_runners::std_runner_names;
use crate::symbols::qualified_text;
use crate::types::{models_of, TypeModel};

verus! {

/// A local variable: its name, its offset in the frame and its type.
pub type LocalModel = (Seq<char>, int, TypeM);

/// What code generation for one function knows: its local variables, the
/// layouts of the user types and its return type.
pub ghost struct GenContext {
    pub locals: Seq<LocalModel>,
    pub types: CustomTypesMetadataTable,
    pub return_type: TypeM,
}

/// The result of generating a construct: the bytes emitted, the call
/// placeholders recorded (absolute position of the two reserved bytes and
/// the callee), and the constants and list kinds tables afterwards.
pub ghost struct Gen {
    pub bytes: Seq<u8>,
    pub calls: Seq<(int, SymbolModel)>,
    pub consts: Seq<ConstantModel>,
    pub lists: Seq<TypeM>,
}

/// The slot of the local `name` (the one declared last under that name).
pub open spec fn local_of(locals: Seq<LocalModel>, name: Seq<char>) -> Option<(int, TypeM)>
    decreases locals.len(),
{
    if locals.len() == 0 {
        None
    } else if locals.last().0 == name {
        Some((locals.last().1, locals.last().2))
    } else {
        local_of(locals.drop_last(), name)
    }
}

/// Space reserved on the stack for a value of type `t` (nothing for an
/// empty tuple).
pub open spec fn reserve_code(t: TypeM) -> Seq<u8> {
    if size_of(t) > 0 {
        seq![RESERVE, size_of(t) as u8]
    } else {
        Seq::empty()
    }
}

/// Dropping a value of type `t` from the stack (nothing for an empty tuple).
pub open spec fn pop_code(t: TypeM) -> Seq<u8> {
    if size_of(t) > 0 {
        seq![POP, size_of(t) as u8]
    } else {
        Seq::empty()
    }
}

/// The opcode of a primitive operation.
pub open spec fn operator_code(op: RawOperator) -> u8 {
    match op {
        RawOperator::UnaryNegateInt => NEGATE_INT,
        RawOperator::AddInts => ADD_INT,
        RawOperator::SubInts => SUB_INT,
        RawOperator::MulInts => MUL_INT,
        RawOperator::DivInts => DIV_INT,
        RawOperator::GreaterInts => GREATER_INT,
        RawOperator::LessInts => LESS_INT,
        RawOperator::EqualInts => EQ_INT,
        RawOperator::UnaryNegateFloat => NEGATE_FLOAT,
        RawOperator::AddFloats => ADD_FLOAT,
        RawOperator::SubFloats => SUB_FLOAT,
        RawOperator::MulFloats => MUL_FLOAT,
        RawOperator::DivFloats => DIV_FLOAT,
        RawOperator::GreaterFloats => GREATER_FLOAT,
        RawOperator::LessFloats => LESS_FLOAT,
        RawOperator::EqualFloats => EQ_FLOAT,
        RawOperator::UnaryNegateBool => NEGATE_BOOL,
        RawOperator::EqualBools => EQ_BOOL,
        RawOperator::AndBools => AND_BOOL,
        RawOperator::OrBools => OR_BOOL,
        RawOperator::EqualStrings => EQ_STRINGS,
        RawOperator::AddStrings => ADD_STRINGS,
    }
}

/// A function of the standard library (defined in the module `std`).
pub open spec fn is_std_symbol(name: SymbolModel) -> bool {
    name.0 == "std"@
}

/// Runner index of a standard-library function: the first runner named
/// like it.
pub open spec fn std_index(name: SymbolModel) -> Option<int> {
    first_index_of(std_runner_names(), qualified_text(name.0, name.1))
}

/// Position of the first occurrence of `x` in `s`.
pub open spec fn first_index_of(s: Seq<Seq<char>>, x: Seq<char>) -> Option<int>
    decreases s.len(),
{
    if s.len() == 0 {
        None
    } else if s[0] == x {
        Some(0)
    } else {
        match first_index_of(s.drop_first(), x) {
            Some(i) => Some(i + 1),
            None => None,
        }
    }
}

/// The constructor of the type `t`: the method named like the type.
pub open spec fn constructor_of(t: SymbolModel) -> SymbolModel {
    (t.0, t.1 + "::"@ + t.1)
}

/// Layout of the user type `t`.
pub open spec fn type_meta(types: CustomTypesMetadataTable, t: SymbolModel) -> CustomTypeMetadata {
    types.metadata@[entry_value(types.entries(), t).unwrap()]
}

/// The type is in the table and its field `field` exists.
pub open spec fn has_field(types: CustomTypesMetadataTable, t: SymbolModel, field: Seq<char>) -> bool {
    &&& entry_value(types.entries(), t) is Some
    &&& last_index_of(type_meta(types, t).names(), field) is Some
}

/// Offset of the field `field` of the type `t`.
pub open spec fn field_offset_of(types: CustomTypesMetadataTable, t: SymbolModel, field: Seq<char>) -> u8 {
    type_meta(types, t).field_offsets@[last_index_of(type_meta(types, t).names(), field).unwrap()]
}

/// Size of the field `field` of the type `t`.
pub open spec fn field_size_of(types: CustomTypesMetadataTable, t: SymbolModel, field: Seq<char>) -> u8 {
    type_meta(types, t).field_sizes@[last_index_of(type_meta(types, t).names(), field).unwrap()]
}

/// Type of the field `field` of the type `t`.
pub open spec fn field_type_of(types: CustomTypesMetadataTable, t: SymbolModel, field: Seq<char>) -> TypeM {
    type_meta(types, t).field_types@[last_index_of(type_meta(types, t).names(), field).unwrap()]@
}

/// Position of the kind of lists of `t` once it is registered.
pub open spec fn list_index(kinds: Seq<TypeM>, t: TypeM) -> int {
    if kinds.contains(t) {
        choose|i: int| 0 <= i < kinds.len() && kinds[i] == t
    } else {
        kinds.len() as int
    }
}

/// The list kinds after registering lists of `t`.
pub open spec fn lists_with(kinds: Seq<TypeM>, t: TypeM) -> Seq<TypeM> {
    if kinds.contains(t) {
        kinds
    } else {
        kinds.push(t)
    }
}

/// Nothing emitted.
pub open spec fn gen_none(consts: Seq<ConstantModel>, lists: Seq<TypeM>) -> Gen {
    Gen { bytes: Seq::empty(), calls: Seq::empty(), consts, lists }
}

/// Fixed bytes emitted.
pub open spec fn gen_bytes(bytes: Seq<u8>, consts: Seq<ConstantModel>, lists: Seq<TypeM>) -> Gen {
    Gen { bytes, calls: Seq::empty(), consts, lists }
}

/// A constant loaded from the constants table.
pub open spec fn gen_constant(c: ConstantModel, consts: Seq<ConstantModel>, lists: Seq<TypeM>) -> Gen {
    let (table, p) = with_constant(consts, c);
    Gen { bytes: seq![LOAD_CONST, p as u8], calls: Seq::empty(), consts: table, lists }
}

/// `a` followed by `b`.
pub open spec fn then(a: Gen, b: Gen) -> Gen {
    Gen { bytes: a.bytes + b.bytes, calls: a.calls + b.calls, consts: b.consts, lists: b.lists }
}

/// Sum of the sizes of the types of `es`.
pub open spec fn exprs_size(es: Seq<VExprTyped>) -> int {
    sizes_sum(es.map_values(|e: VExprTyped| e.expr_type@))
}

/// The code of `e`, placed at position `pos`.
pub open spec fn gen_expr(ctx: GenContext, e: VExprTyped, pos: int, consts: Seq<ConstantModel>, lists: Seq<TypeM>) -> Gen
    decreases e,
{
    match e.expr {
        VExpr::Int(i) => if 0 <= i < 256 {
            gen_bytes(seq![LOAD_SMALL_INT, i as u8], consts, lists)
        } else {
            gen_constant(ConstantModel::Int(i), consts, lists)
        },
        VExpr::Float(f) => gen_constant(ConstantModel::Float(f), consts, lists),
        VExpr::String(s) => gen_constant(ConstantModel::String(s@), consts, lists),
        VExpr::Bool(b) => gen_bytes(if b { seq![LOAD_TRUE] } else { seq![LOAD_FALSE] }, consts, lists),
        VExpr::ApplyOp { operator, operands } => {
            let g = gen_exprs(ctx, operands@, pos, consts, lists);
            then(g, gen_bytes(seq![operator_code(operator)], g.consts, g.lists))
        },
        VExpr::TernaryOp { condition, if_true, if_false } => {
            let c = gen_expr(ctx, *condition, pos, consts, lists);
            let t = gen_expr(ctx, *if_true, pos + c.bytes.len() + 3, c.consts, c.lists);
            let f = gen_expr(ctx, *if_false, pos + c.bytes.len() + 3 + t.bytes.len() + 3, t.consts, t.lists);
            Gen {
                bytes: c.bytes + seq![JUMP_IF_FALSE] + u16_be((t.bytes.len() + 3) as u16) + t.bytes + seq![JUMP]
                    + u16_be(f.bytes.len() as u16) + f.bytes,
                calls: c.calls + t.calls + f.calls,
                consts: f.consts,
                lists: f.lists,
            }
        },
        VExpr::GetVar(name) => {
            let slot = local_of(ctx.locals, name@).unwrap();
            gen_bytes(seq![GET_LOCAL, slot.0 as u8, size_of(slot.1) as u8], consts, lists)
        },
        VExpr::CallFunction { name, return_type, args } => {
            let std = is_std_symbol(name@);
            let r = if std { Seq::<u8>::empty() } else { reserve_code(return_type@) };
            let a = gen_exprs(ctx, args@, pos + r.len(), consts, lists);
            let locals_size = exprs_size(args@) as u8;
            if std {
                Gen {
                    bytes: r + a.bytes + seq![CALL_STD, locals_size, 0u8, std_index(name@).unwrap() as u8],
                    calls: a.calls,
                    consts: a.consts,
                    lists: a.lists,
                }
            } else {
                Gen {
                    bytes: r + a.bytes + seq![CALL, locals_size, 0u8, 0u8],
                    calls: a.calls.push((pos + r.len() + a.bytes.len() + 2, name@)),
                    consts: a.consts,
                    lists: a.lists,
                }
            }
        },
        VExpr::TupleValue(items) => gen_exprs(ctx, items@, pos, consts, lists),
        VExpr::ListValue { item_type, items } => {
            let a = gen_exprs(ctx, items@, pos, consts, lists);
            let flag = list_index(a.lists, item_type@);
            Gen {
                bytes: a.bytes + seq![ALLOCATE_LIST, flag as u8, items@.len() as u8],
                calls: a.calls,
                consts: a.consts,
                lists: lists_with(a.lists, item_type@),
            }
        },
        VExpr::AccessTupleItem { tuple, index } => {
            let tt = tuple.expr_type@;
            let it = subitem(tt, index as int);
            let r = reserve_code(it);
            let g = gen_expr(ctx, *tuple, pos + r.len(), consts, lists);
            Gen {
                bytes: r + g.bytes + seq![GET_TUPLE_ITEM, size_of(tt) as u8, tuple_offset(tt, seq![index]) as u8, size_of(it) as u8],
                calls: g.calls,
                consts: g.consts,
                lists: g.lists,
            }
        },
        VExpr::AccessField { object, field } => {
            let g = gen_expr(ctx, *object, pos, consts, lists);
            let t = object.expr_type@->Custom_0;
            then(g, gen_bytes(seq![GET_OBJ_FIELD, field_offset_of(ctx.types, t, field@), field_size_of(ctx.types, t, field@)], g.consts, g.lists))
        },
        VExpr::AccessListItem { list, index } => {
            let gi = gen_expr(ctx, *index, pos, consts, lists);
            let gl = gen_expr(ctx, *list, pos + gi.bytes.len(), gi.consts, gi.lists);
            then(then(gi, gl), gen_bytes(seq![GET_LIST_ITEM], gl.consts, gl.lists))
        },
        VExpr::Allocate { typename } => gen_bytes(
            seq![ALLOCATE, entry_value(ctx.types.entries(), typename@).unwrap() as u8],
            consts,
            lists,
        ),
        VExpr::Spawn { typename, args } => {
            let a = gen_exprs(ctx, args@, pos + 2, consts, lists);
            Gen {
                bytes: seq![RESERVE, 1u8] + a.bytes + seq![SPAWN, entry_value(ctx.types.entries(), typename@).unwrap() as u8, 0u8, 0u8],
                calls: a.calls.push((pos + 2 + a.bytes.len() + 2, constructor_of(typename@))),
                consts: a.consts,
                lists: a.lists,
            }
        },
        VExpr::Dummy(t) => gen_bytes(reserve_code(t@), consts, lists),
        VExpr::CurrentActive => gen_bytes(seq![CURRENT_ACTIVE], consts, lists),
        VExpr::CurrentActiveField { active_type, field } => gen_bytes(
            seq![GET_CURRENT_ACTIVE_FIELD, field_offset_of(ctx.types, active_type@, field@), field_size_of(ctx.types, active_type@, field@)],
            consts,
            lists,
        ),
        VExpr::CompareMaybe { .. } => gen_none(consts, lists),
    }
}

/// The code of `es`, one after another, placed at position `pos`.
pub open spec fn gen_exprs(ctx: GenContext, es: Seq<VExprTyped>, pos: int, consts: Seq<ConstantModel>, lists: Seq<TypeM>) -> Gen
    decreases es,
{
    if es.len() == 0 {
        gen_none(consts, lists)
    } else {
        let g = gen_exprs(ctx, es.drop_last(), pos, consts, lists);
        then(g, gen_expr(ctx, es.last(), pos + g.bytes.len(), g.consts, g.lists))
    }
}

} // verus!

verus! {

/// Every layout of the types table is well formed.
pub open spec fn types_ok(types: CustomTypesMetadataTable) -> bool {
    &&& types.wf()
    &&& forall|i: int| 0 <= i < types.metadata@.len() ==> (#[trigger] types.metadata@[i]).wf()
}

/// Code can be generated for `e`: its variables are declared, its types
/// and fields exist, its tuple indexes are in range, the sizes involved fit
/// one byte, and its standard-library calls have runners.
pub open spec fn expr_ok(ctx: GenContext, e: VExprTyped) -> bool
    decreases e,
{
    match e.expr {
        VExpr::Int(_) => true,
        VExpr::Float(_) => true,
        VExpr::String(_) => true,
        VExpr::Bool(_) => true,
        VExpr::CurrentActive => true,
        VExpr::ApplyOp { operator, operands } => exprs_ok(ctx, operands@),
        VExpr::TernaryOp { condition, if_true, if_false } => expr_ok(ctx, *condition) && expr_ok(ctx, *if_true) && expr_ok(ctx, *if_false),
        VExpr::GetVar(name) => local_of(ctx.locals, name@) matches Some(slot) && 0 <= slot.0 <= 255 && size_of(slot.1) <= 255,
        VExpr::CallFunction { name, return_type, args } => {
            &&& exprs_ok(ctx, args@)
            &&& exprs_size(args@) <= 255
            &&& is_std_symbol(name@) ==> std_index(name@) is Some
            &&& !is_std_symbol(name@) ==> size_of(return_type@) <= 255
        },
        VExpr::TupleValue(items) => exprs_ok(ctx, items@),
        VExpr::ListValue { item_type, items } => exprs_ok(ctx, items@) && size_of(item_type@) <= 255,
        VExpr::AccessTupleItem { tuple, index } => expr_ok(ctx, *tuple) && index_ok(tuple.expr_type@, index as int) && size_of(tuple.expr_type@) <= 255,
        VExpr::AccessField { object, field } => {
            &&& expr_ok(ctx, *object)
            &&& object.expr_type@ is Custom
            &&& has_field(ctx.types, object.expr_type@->Custom_0, field@)
        },
        VExpr::AccessListItem { list, index } => expr_ok(ctx, *list) && expr_ok(ctx, *index),
        VExpr::Allocate { typename } => entry_value(ctx.types.entries(), typename@) is Some,
        VExpr::Spawn { typename, args } => entry_value(ctx.types.entries(), typename@) is Some && exprs_ok(ctx, args@),
        VExpr::Dummy(t) => size_of(t@) <= 255,
        VExpr::CurrentActiveField { active_type, field } => has_field(ctx.types, active_type@, field@),
        VExpr::CompareMaybe { .. } => false,
    }
}

/// Code can be generated for each of `es`.
pub open spec fn exprs_ok(ctx: GenContext, es: Seq<VExprTyped>) -> bool
    decreases es,
{
    if es.len() == 0 {
        true
    } else {
        exprs_ok(ctx, es.drop_last()) && expr_ok(ctx, es.last())
    }
}

} // verus!

verus! {

pub proof fn lemma_exprs_ok(ctx: GenContext, es: Seq<VExprTyped>, i: int)
    requires
        exprs_ok(ctx, es),
        0 <= i < es.len(),
    ensures
        expr_ok(ctx, es[i]),
    decreases es.len(),
{
    if i < es.len() - 1 {
        assert(es.drop_last()[i] == es[i]);
        lemma_exprs_ok(ctx, es.drop_last(), i);
    }
}

pub proof fn lemma_exprs_ok_prefix(ctx: GenContext, es: Seq<VExprTyped>, i: int)
    requires
        exprs_ok(ctx, es),
        0 <= i <= es.len(),
    ensures
        exprs_ok(ctx, es.take(i)),
    decreases es.len() - i,
{
    if i < es.len() {
        lemma_exprs_ok_prefix(ctx, es, i + 1);
        assert(es.take(i + 1).drop_last() =~= es.take(i));
    } else {
        assert(es.take(i) =~= es);
    }
}

} // verus!

verus! {

/// The result of generating statements: what was emitted, and the positions
/// of the placeholders of `break` jumps not yet filled.
pub ghost struct StmtGen {
    pub gen: Gen,
    pub breaks: Seq<int>,
}

/// Storing the value on top of the stack into the local `name`, at the
/// tuple item that `path` selects.
pub open spec fn set_local_code(ctx: GenContext, name: Seq<char>, path: Seq<usize>) -> Seq<u8> {
    let slot = local_of(ctx.locals, name).unwrap();
    seq![SET_LOCAL, (slot.0 + tuple_offset(slot.1, path)) as u8, size_of(subitem_at(slot.1, path)) as u8]
}

/// Returning from the function with a value of its return type.
pub open spec fn return_code(ctx: GenContext) -> Seq<u8> {
    seq![RETURN, size_of(ctx.return_type) as u8]
}

/// `bytes`, which start at position `base`, with the jump placeholder at
/// each of `breaks` (in order) filled with a jump to position `end`.
pub open spec fn fill_breaks(bytes: Seq<u8>, base: int, breaks: Seq<int>, end: int) -> Seq<u8>
    decreases breaks.len(),
{
    if breaks.len() == 0 {
        bytes
    } else {
        let done = fill_breaks(bytes, base, breaks.drop_last(), end);
        let p = breaks.last();
        let v = u16_be((end - p - 2) as u16);
        done.update(p - base, v[0]).update(p - base + 1, v[1])
    }
}

/// The code of `s`, placed at `pos`, inside a loop starting at
/// `loop_start` if there is one.
pub open spec fn gen_stmt(
    ctx: GenContext,
    s: VStatement,
    pos: int,
    consts: Seq<ConstantModel>,
    lists: Seq<TypeM>,
    loop_start: Option<int>,
) -> StmtGen
    decreases s,
{
    match s {
        VStatement::Expression(e) => {
            let g = gen_expr(ctx, e, pos, consts, lists);
            StmtGen { gen: then(g, gen_bytes(pop_code(e.expr_type@), g.consts, g.lists)), breaks: Seq::empty() }
        },
        VStatement::AssignLocal { name, tuple_indexes, value } => {
            let g = gen_expr(ctx, value, pos, consts, lists);
            StmtGen { gen: then(g, gen_bytes(set_local_code(ctx, name@, tuple_indexes@), g.consts, g.lists)), breaks: Seq::empty() }
        },
        VStatement::AssignToField { object, field, tuple_indexes, value } => {
            let gv = gen_expr(ctx, value, pos, consts, lists);
            let go = gen_expr(ctx, object, pos + gv.bytes.len(), gv.consts, gv.lists);
            let t = object.expr_type@->Custom_0;
            let offset = field_offset_of(ctx.types, t, field@) + tuple_offset(field_type_of(ctx.types, t, field@), tuple_indexes@);
            StmtGen {
                gen: then(then(gv, go), gen_bytes(seq![SET_OBJ_FIELD, offset as u8, size_of(value.expr_type@) as u8], go.consts, go.lists)),
                breaks: Seq::empty(),
            }
        },
        VStatement::AssignToList { list, index, tuple_indexes, value } => {
            let gv = gen_expr(ctx, value, pos, consts, lists);
            let gi = gen_expr(ctx, index, pos + gv.bytes.len(), gv.consts, gv.lists);
            let gl = gen_expr(ctx, list, pos + gv.bytes.len() + gi.bytes.len(), gi.consts, gi.lists);
            let item = *(list.expr_type@->List_0);
            StmtGen {
                gen: then(
                    then(then(gv, gi), gl),
                    gen_bytes(seq![SET_LIST_ITEM, tuple_offset(item, tuple_indexes@) as u8, size_of(value.expr_type@) as u8], gl.consts, gl.lists),
                ),
                breaks: Seq::empty(),
            }
        },
        VStatement::Return(e) => {
            let g = gen_expr(ctx, e, pos, consts, lists);
            StmtGen { gen: then(g, gen_bytes(return_code(ctx), g.consts, g.lists)), breaks: Seq::empty() }
        },
        VStatement::IfElse { condition, if_body, else_body } => {
            let c = gen_expr(ctx, condition, pos, consts, lists);
            let ib = gen_stmts(ctx, if_body@, pos + c.bytes.len() + 3, c.consts, c.lists, loop_start);
            if else_body@.len() == 0 {
                StmtGen {
                    gen: Gen {
                        bytes: c.bytes + seq![JUMP_IF_FALSE] + u16_be(ib.gen.bytes.len() as u16) + ib.gen.bytes,
                        calls: c.calls + ib.gen.calls,
                        consts: ib.gen.consts,
                        lists: ib.gen.lists,
                    },
                    breaks: ib.breaks,
                }
            } else {
                let eb = gen_stmts(ctx, else_body@, pos + c.bytes.len() + 3 + ib.gen.bytes.len() + 3, ib.gen.consts, ib.gen.lists, loop_start);
                StmtGen {
                    gen: Gen {
                        bytes: c.bytes + seq![JUMP_IF_FALSE] + u16_be((ib.gen.bytes.len() + 3) as u16) + ib.gen.bytes + seq![JUMP]
                            + u16_be(eb.gen.bytes.len() as u16) + eb.gen.bytes,
                        calls: c.calls + ib.gen.calls + eb.gen.calls,
                        consts: eb.gen.consts,
                        lists: eb.gen.lists,
                    },
                    breaks: ib.breaks + eb.breaks,
                }
            }
        },
        VStatement::While { condition, body } => {
            let c = gen_expr(ctx, condition, pos, consts, lists);
            let body_start = pos + c.bytes.len() + 3;
            let b = gen_stmts(ctx, body@, body_start, c.consts, c.lists, Some(pos));
            let end = body_start + b.gen.bytes.len() + 3;
            StmtGen {
                gen: Gen {
                    bytes: c.bytes + seq![JUMP_IF_FALSE] + u16_be((b.gen.bytes.len() + 3) as u16)
                        + fill_breaks(b.gen.bytes, body_start, b.breaks, end) + seq![JUMP_BACK]
                        + u16_be((c.bytes.len() + b.gen.bytes.len() + 6) as u16),
                    calls: c.calls + b.gen.calls,
                    consts: b.gen.consts,
                    lists: b.gen.lists,
                },
                breaks: Seq::empty(),
            }
        },
        VStatement::Break => StmtGen { gen: gen_bytes(seq![JUMP, 0u8, 0u8], consts, lists), breaks: seq![pos + 1] },
        VStatement::Continue => StmtGen {
            gen: gen_bytes(seq![JUMP_BACK] + u16_be((pos + 1 - loop_start.unwrap() + 2) as u16), consts, lists),
            breaks: Seq::empty(),
        },
        VStatement::AssignToCurrentActiveField { active_type, field, value, tuple_indexes } => {
            let g = gen_expr(ctx, value, pos, consts, lists);
            let offset = field_offset_of(ctx.types, active_type@, field@) + tuple_offset(value.expr_type@, tuple_indexes@);
            StmtGen {
                gen: then(g, gen_bytes(seq![SET_CURRENT_ACTIVE_FIELD, offset as u8, size_of(value.expr_type@) as u8], g.consts, g.lists)),
                breaks: Seq::empty(),
            }
        },
        VStatement::SendMessage { active, receiver, args } => {
            let ga = gen_expr(ctx, active, pos, consts, lists);
            let a = gen_exprs(ctx, args@, pos + ga.bytes.len(), ga.consts, ga.lists);
            StmtGen {
                gen: Gen {
                    bytes: ga.bytes + a.bytes + seq![SEND_MESSAGE, 0u8, 0u8],
                    calls: (ga.calls + a.calls).push((pos + ga.bytes.len() + a.bytes.len() + 1, receiver@)),
                    consts: a.consts,
                    lists: a.lists,
                },
                breaks: Seq::empty(),
            }
        },
    }
}

/// The code of `ss`, one after another, placed at `pos`.
pub open spec fn gen_stmts(
    ctx: GenContext,
    ss: Seq<VStatement>,
    pos: int,
    consts: Seq<ConstantModel>,
    lists: Seq<TypeM>,
    loop_start: Option<int>,
) -> StmtGen
    decreases ss,
{
    if ss.len() == 0 {
        StmtGen { gen: gen_none(consts, lists), breaks: Seq::empty() }
    } else {
        let g = gen_stmts(ctx, ss.drop_last(), pos, consts, lists, loop_start);
        let h = gen_stmt(ctx, ss.last(), pos + g.gen.bytes.len(), g.gen.consts, g.gen.lists, loop_start);
        StmtGen { gen: then(g.gen, h.gen), breaks: g.breaks + h.breaks }
    }
}

/// Code can be generated for `s` (inside a loop when `in_loop`).
pub open spec fn stmt_ok(ctx: GenContext, s: VStatement, in_loop: bool) -> bool
    decreases s,
{
    match s {
        VStatement::Expression(e) => expr_ok(ctx, e) && size_of(e.expr_type@) <= 255,
        VStatement::AssignLocal { name, tuple_indexes, value } => {
            &&& expr_ok(ctx, value)
            &&& local_of(ctx.locals, name@) matches Some(slot) && {
                &&& valid_path(slot.1, tuple_indexes@)
                &&& size_of(slot.1) <= 255
                &&& 0 <= slot.0 + tuple_offset(slot.1, tuple_indexes@) <= 255
            }
        },
        VStatement::AssignToField { object, field, tuple_indexes, value } => {
            &&& expr_ok(ctx, value)
            &&& expr_ok(ctx, object)
            &&& size_of(value.expr_type@) <= 255
            &&& object.expr_type@ is Custom
            &&& has_field(ctx.types, object.expr_type@->Custom_0, field@)
            &&& valid_path(field_type_of(ctx.types, object.expr_type@->Custom_0, field@), tuple_indexes@)
            &&& size_of(field_type_of(ctx.types, object.expr_type@->Custom_0, field@)) <= 255
            &&& field_offset_of(ctx.types, object.expr_type@->Custom_0, field@)
                + tuple_offset(field_type_of(ctx.types, object.expr_type@->Custom_0, field@), tuple_indexes@) <= 255
        },
        VStatement::AssignToList { list, index, tuple_indexes, value } => {
            &&& expr_ok(ctx, value)
            &&& expr_ok(ctx, index)
            &&& expr_ok(ctx, list)
            &&& size_of(value.expr_type@) <= 255
            &&& list.expr_type@ is List
            &&& valid_path(*(list.expr_type@->List_0), tuple_indexes@)
            &&& size_of(*(list.expr_type@->List_0)) <= 255
        },
        VStatement::Return(e) => expr_ok(ctx, e) && size_of(ctx.return_type) <= 255,
        VStatement::IfElse { condition, if_body, else_body } => {
            &&& expr_ok(ctx, condition)
            &&& stmts_ok(ctx, if_body@, in_loop)
            &&& stmts_ok(ctx, else_body@, in_loop)
        },
        VStatement::While { condition, body } => expr_ok(ctx, condition) && stmts_ok(ctx, body@, true),
        VStatement::Break => true,
        VStatement::Continue => in_loop,
        VStatement::AssignToCurrentActiveField { active_type, field, value, tuple_indexes } => {
            &&& expr_ok(ctx, value)
            &&& size_of(value.expr_type@) <= 255
            &&& has_field(ctx.types, active_type@, field@)
            &&& valid_path(value.expr_type@, tuple_indexes@)
            &&& field_offset_of(ctx.types, active_type@, field@) + tuple_offset(value.expr_type@, tuple_indexes@) <= 255
        },
        VStatement::SendMessage { active, receiver, args } => expr_ok(ctx, active) && exprs_ok(ctx, args@),
    }
}

/// Code can be generated for each of `ss`.
pub open spec fn stmts_ok(ctx: GenContext, ss: Seq<VStatement>, in_loop: bool) -> bool
    decreases ss,
{
    if ss.len() == 0 {
        true
    } else {
        stmts_ok(ctx, ss.drop_last(), in_loop) && stmt_ok(ctx, ss.last(), in_loop)
    }
}

pub proof fn lemma_stmts_ok(ctx: GenContext, ss: Seq<VStatement>, in_loop: bool, i: int)
    requires
        stmts_ok(ctx, ss, in_loop),
        0 <= i < ss.len(),
    ensures
        stmt_ok(ctx, ss[i], in_loop),
    decreases ss.len(),
{
    if i < ss.len() - 1 {
        assert(ss.drop_last()[i] == ss[i]);
        lemma_stmts_ok(ctx, ss.drop_last(), in_loop, i);
    }
}

} // verus!

verus! {

pub proof fn lemma_fill_breaks_len(bytes: Seq<u8>, base: int, breaks: Seq<int>, end: int)
    requires
        forall|j: int| 0 <= j < breaks.len() ==> base <= #[trigger] breaks[j] && breaks[j] + 2 <= base + bytes.len(),
    ensures
        fill_breaks(bytes, base, breaks, end).len() == bytes.len(),
    decreases breaks.len(),
{
    if breaks.len() > 0 {
        lemma_fill_breaks_len(bytes, base, breaks.drop_last(), end);
    }
}

} // verus!

verus! {

/// The frame slots of variables named `names` with types `ms`, laid out one
/// after another from offset `start`.
pub open spec fn frame_locals(names: Seq<Seq<char>>, ms: Seq<TypeM>, start: int) -> Seq<LocalModel> {
    Seq::new(names.len(), |i: int| (names[i], start + sizes_sum(ms.take(i)), ms[i]))
}

/// Names of the declared locals of a function.
pub open spec fn local_names(locals: Seq<(String, crate::types::VerifiedType)>) -> Seq<Seq<char>> {
    locals.map_values(|l: (String, crate::types::VerifiedType)| l.0@)
}

/// Types of the declared locals of a function.
pub open spec fn local_types(locals: Seq<(String, crate::types::VerifiedType)>) -> Seq<TypeM> {
    locals.map_values(|l: (String, crate::types::VerifiedType)| l.1@)
}

/// What generating the code of `func` knows: its arguments, then its
/// declared locals, in frame order; the layouts of the user types; its
/// return type.
pub open spec fn function_context(func: crate::ast::verified::RawFunction, types: CustomTypesMetadataTable) -> GenContext {
    let args = func.args.type_models();
    GenContext {
        locals: frame_locals(func.args.name_texts(), args, 0) + frame_locals(
            local_names(func.locals@),
            local_types(func.locals@),
            sizes_sum(args),
        ),
        types,
        return_type: func.return_type@,
    }
}

/// The code of `func`: space reserved for its declared locals, then its
/// statements (a `break` outside any loop stays an unfilled jump).
pub open spec fn function_gen(
    func: crate::ast::verified::RawFunction,
    types: CustomTypesMetadataTable,
    consts: Seq<ConstantModel>,
    lists: Seq<TypeM>,
) -> Gen {
    let body = gen_stmts(function_context(func, types), func.body@, 2, consts, lists, None);
    Gen {
        bytes: seq![RESERVE, sizes_sum(local_types(func.locals@)) as u8] + body.gen.bytes,
        calls: body.gen.calls,
        consts: body.gen.consts,
        lists: body.gen.lists,
    }
}

/// Code can be generated for `func`: its arguments and locals fit a frame
/// of 256 words and every statement can be generated.
pub open spec fn function_ok(func: crate::ast::verified::RawFunction, types: CustomTypesMetadataTable) -> bool {
    &&& func.args.wf()
    &&& sizes_sum(func.args.type_models()) + sizes_sum(local_types(func.locals@)) <= 255
    &&& stmts_ok(function_context(func, types), func.body@, false)
}

} // verus!
