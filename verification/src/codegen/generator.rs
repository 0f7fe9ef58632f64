//! The code of one function as it is being generated.
use vstd::prelude::*;

use crate::codegen::growth::{extends, lemma_expr_tables, lemma_stmt_tables};

use crate::ast::verified::{RawFunction, VExpr, VExprTyped, VStatement};
use crate::codegen::compile::{
    constructor_of, field_offset_of, field_size_of, has_field, expr_ok, exprs_ok, exprs_size, gen_expr, gen_exprs, lemma_exprs_ok,
    lemma_exprs_ok_prefix, lemma_stmts_ok, local_of, std_index, types_ok, GenContext, LocalModel, StmtGen, gen_stmt,
    gen_stmts, stmt_ok, stmts_ok, fill_breaks, set_local_code, return_code, field_type_of, pop_code,
};
use crate::codegen::constants::{with_constant, Constant, ConstantModel, ConstantsTable};
use crate::codegen::encoding::u16_be;
use crate::codegen::metadata::{CustomTypesMetadataTable, ListKindsMetadataTable, SymbolModel, TypeM};
use crate::codegen::expressions::{match_operator, match_std_function};
use crate::codegen::utils::{
    get_tuple_offset, get_tuple_subitem_type, get_type_size, lemma_size_nonneg, lemma_sizes_prefix, size_of, sizes_sum,
};
use crate::runtime::opcodes::{
    ALLOCATE, ALLOCATE_LIST, CALL, CALL_STD, CURRENT_ACTIVE, GET_CURRENT_ACTIVE_FIELD, GET_LIST_ITEM, GET_LOCAL,
    GET_OBJ_FIELD, GET_TUPLE_ITEM, JUMP, JUMP_BACK, JUMP_IF_FALSE, LOAD_CONST, LOAD_FALSE, LOAD_SMALL_INT, LOAD_TRUE,
    POP, RESERVE, RETURN, SEND_MESSAGE, SET_CURRENT_ACTIVE_FIELD, SET_LIST_ITEM, SET_LOCAL, SET_OBJ_FIELD, SPAWN,
};
use crate::symbols::{SymbolFunc, SymbolType};
use crate::types::{models_of, Type, VerifiedType};

verus! {

/// The compiled code of a function: its code bytes, where in them calls to
/// other functions wait for those functions' start positions (a position
/// and the callee), the sizes of its locals and of its arguments, and the
/// positions of pointers among its arguments.
#[derive(Debug)]
pub struct FunctionBytecode {
    pub name: SymbolFunc,
    pub bytecode: Vec<u8>,
    pub call_placeholders: Vec<(usize, SymbolFunc)>,
    pub locals_size: usize,
    pub args_size: usize,
    pub args_pointer_mapping: Vec<usize>,
}

/// Two bytes of code reserved for a jump offset that is filled in once the
/// target is known.
#[derive(Debug)]
pub struct JumpPlaceholder {
    position: usize,
}

impl JumpPlaceholder {
    /// Position of the first reserved byte.
    pub closed spec fn pos(&self) -> int {
        self.position as int
    }
}

impl FunctionBytecode {
    /// The call placeholders as (position, callee) pairs.
    pub open spec fn calls(&self) -> Seq<(usize, (Seq<char>, Seq<char>))> {
        self.call_placeholders@.map_values(|p: (usize, SymbolFunc)| (p.0, p.1@))
    }

    /// The call placeholders with their positions as integers.
    pub open spec fn call_models(&self) -> Seq<(int, SymbolModel)> {
        self.call_placeholders@.map_values(|p: (usize, SymbolFunc)| (p.0 as int, p.1@))
    }
}

/// A local variable of the function being generated: its name, its offset
/// in the frame and its type.
#[derive(Debug)]
pub struct LocalVar {
    pub name: String,
    pub offset: u8,
    pub typ: VerifiedType,
}

/// Generates the code of one function. It owns the constants and list kinds
/// tables while it works; `finish` hands them back with the code.
pub struct BytecodeGenerator<'a> {
    pub custom_types_meta: &'a CustomTypesMetadataTable,
    pub list_kinds_meta: ListKindsMetadataTable,
    pub constants: ConstantsTable,
    pub locals: Vec<LocalVar>,
    pub locals_offset: u8,
    pub return_type: VerifiedType,
    bytecode: FunctionBytecode,
}

/// The locals as (name, offset, type).
pub open spec fn locals_model(locals: Seq<LocalVar>) -> Seq<LocalModel> {
    locals.map_values(|l: LocalVar| (l.name@, l.offset as int, l.typ@))
}

impl<'a> BytecodeGenerator<'a> {
    /// What generation knows about the function.
    pub closed spec fn ctx(&self) -> GenContext {
        GenContext { locals: locals_model(self.locals@), types: *self.custom_types_meta, return_type: self.return_type@ }
    }

    /// The code generated so far.
    pub closed spec fn code(&self) -> Seq<u8> {
        self.bytecode.bytecode@
    }

    /// The call placeholders recorded so far.
    pub closed spec fn calls(&self) -> Seq<(int, SymbolModel)> {
        self.bytecode.call_models()
    }

    /// The function whose code this is.
    pub closed spec fn function(&self) -> FunctionBytecode {
        self.bytecode
    }

    /// The name and sizes of the function being generated.
    pub closed spec fn header(&self) -> (SymbolModel, usize, usize, Seq<usize>) {
        (self.bytecode.name@, self.bytecode.locals_size, self.bytecode.args_size, self.bytecode.args_pointer_mapping@)
    }

    /// Words of the frame taken so far by arguments and locals.
    pub closed spec fn frame_size(&self) -> int {
        self.locals_offset as int
    }

    /// The constants table.
    pub closed spec fn consts(&self) -> Seq<ConstantModel> {
        self.constants@
    }

    /// The list kinds table.
    pub closed spec fn lists(&self) -> Seq<TypeM> {
        self.list_kinds_meta.kinds()
    }

    /// The tables are well formed.
    pub closed spec fn wf(&self) -> bool {
        &&& self.list_kinds_meta.wf()
        &&& types_ok(*self.custom_types_meta)
    }

    /// Appends one byte.
    pub fn push(&mut self, opcode: u8)
        ensures
            final(self).code() == old(self).code().push(opcode),
            final(self).calls() == old(self).calls(),
            final(self).ctx() == old(self).ctx(),
            final(self).frame_size() == old(self).frame_size(),
            final(self).header() == old(self).header(),
            final(self).consts() == old(self).consts(),
            final(self).lists() == old(self).lists(),
            old(self).wf() ==> final(self).wf(),
    {
        self.bytecode.bytecode.push(opcode);
    }

    /// Position of the next byte.
    pub fn get_position(&self) -> (r: usize)
        ensures
            r == self.code().len(),
    {
        self.bytecode.bytecode.len()
    }

    /// Loads `constant`: its position in the constants table, as one byte.
    pub fn push_constant(&mut self, constant: Constant)
        ensures
            final(self).code() == old(self).code().push(with_constant(old(self).consts(), constant@).1 as u8),
            final(self).consts() == with_constant(old(self).consts(), constant@).0,
            final(self).calls() == old(self).calls(),
            final(self).ctx() == old(self).ctx(),
            final(self).frame_size() == old(self).frame_size(),
            final(self).header() == old(self).header(),
            final(self).lists() == old(self).lists(),
            old(self).wf() ==> final(self).wf(),
    {
        let constant_pos = self.constants.get_constant(constant);
        self.push(constant_pos);
    }

    /// The size of a value of type `t`, as one byte.
    pub fn push_type_size(&mut self, t: &VerifiedType)
        requires
            size_of(t@) <= 255,
        ensures
            final(self).code() == old(self).code().push(size_of(t@) as u8),
            final(self).calls() == old(self).calls(),
            final(self).ctx() == old(self).ctx(),
            final(self).frame_size() == old(self).frame_size(),
            final(self).header() == old(self).header(),
            final(self).consts() == old(self).consts(),
            final(self).lists() == old(self).lists(),
            old(self).wf() ==> final(self).wf(),
    {
        let size = get_type_size(t);
        self.push(size)
    }

    /// Reserves stack space for a value of type `for_type`.
    pub fn push_reserve(&mut self, for_type: &VerifiedType)
        requires
            size_of(for_type@) <= 255,
        ensures
            final(self).code() == old(self).code() + crate::codegen::compile::reserve_code(for_type@),
            final(self).calls() == old(self).calls(),
            final(self).ctx() == old(self).ctx(),
            final(self).frame_size() == old(self).frame_size(),
            final(self).header() == old(self).header(),
            final(self).consts() == old(self).consts(),
            final(self).lists() == old(self).lists(),
            old(self).wf() ==> final(self).wf(),
    {
        let reserve_size = get_type_size(for_type);
        if reserve_size > 0 {
            self.push(RESERVE);
            self.push_type_size(for_type);
        }
        assert(final(self).code() =~= old(self).code() + crate::codegen::compile::reserve_code(for_type@));
    }

    /// Drops a value of type `for_type` from the stack.
    pub fn push_pop(&mut self, for_type: &VerifiedType)
        requires
            size_of(for_type@) <= 255,
        ensures
            final(self).code() == old(self).code() + crate::codegen::compile::pop_code(for_type@),
            final(self).calls() == old(self).calls(),
            final(self).ctx() == old(self).ctx(),
            final(self).frame_size() == old(self).frame_size(),
            final(self).header() == old(self).header(),
            final(self).consts() == old(self).consts(),
            final(self).lists() == old(self).lists(),
            old(self).wf() ==> final(self).wf(),
    {
        let pop_size = get_type_size(for_type);
        if pop_size > 0 {
            self.push(POP);
            self.push_type_size(for_type);
        }
        assert(final(self).code() =~= old(self).code() + crate::codegen::compile::pop_code(for_type@));
    }

    /// Reserves two bytes for the start position of `func`, recording the
    /// call placeholder.
    pub fn push_function_placeholder(&mut self, func: &SymbolFunc)
        ensures
            final(self).code() == old(self).code() + seq![0u8, 0u8],
            final(self).calls() == old(self).calls().push((old(self).code().len() as int, func@)),
            final(self).ctx() == old(self).ctx(),
            final(self).frame_size() == old(self).frame_size(),
            final(self).header() == old(self).header(),
            final(self).consts() == old(self).consts(),
            final(self).lists() == old(self).lists(),
            old(self).wf() ==> final(self).wf(),
    {
        let position = self.bytecode.bytecode.len();
        self.bytecode.call_placeholders.push((position, func.duplicate()));
        self.push(0);
        self.push(0);
        assert(final(self).code() =~= old(self).code() + seq![0u8, 0u8]);
        assert(final(self).calls() =~= old(self).calls().push((old(self).code().len() as int, func@)));
    }

    /// Reserves two bytes for a jump offset.
    pub fn push_placeholder(&mut self) -> (r: JumpPlaceholder)
        ensures
            final(self).code() == old(self).code() + seq![0u8, 0u8],
            r.pos() == old(self).code().len(),
            final(self).calls() == old(self).calls(),
            final(self).ctx() == old(self).ctx(),
            final(self).frame_size() == old(self).frame_size(),
            final(self).header() == old(self).header(),
            final(self).consts() == old(self).consts(),
            final(self).lists() == old(self).lists(),
            old(self).wf() ==> final(self).wf(),
    {
        let placeholder_pos = self.get_position();
        self.push(0);
        self.push(0);
        assert(final(self).code() =~= old(self).code() + seq![0u8, 0u8]);
        JumpPlaceholder { position: placeholder_pos }
    }

    /// Fills `placeholder` with the distance from its end to the current
    /// position (a forward jump to here).
    pub fn fill_placeholder(&mut self, placeholder: &JumpPlaceholder)
        requires
            placeholder.pos() + 2 <= old(self).code().len(),
        ensures
            final(self).code() == old(self).code().update(placeholder.pos(), u16_be((old(self).code().len() - placeholder.pos() - 2) as u16)[0])
                .update(placeholder.pos() + 1, u16_be((old(self).code().len() - placeholder.pos() - 2) as u16)[1]),
            final(self).calls() == old(self).calls(),
            final(self).ctx() == old(self).ctx(),
            final(self).frame_size() == old(self).frame_size(),
            final(self).header() == old(self).header(),
            final(self).consts() == old(self).consts(),
            final(self).lists() == old(self).lists(),
            old(self).wf() ==> final(self).wf(),
    {
        let diff = (self.get_position() - placeholder.position - 2) as u16;
        self.bytecode.bytecode.set(placeholder.position, (diff / 256) as u8);
        self.bytecode.bytecode.set(placeholder.position + 1, (diff % 256) as u8);
    }

    /// Fills `placeholder` with the distance back from its end to `jump_to`
    /// (a backward jump).
    pub fn fill_placeholder_backward(&mut self, placeholder: &JumpPlaceholder, jump_to: usize)
        requires
            placeholder.pos() + 2 <= old(self).code().len(),
            jump_to <= placeholder.pos(),
        ensures
            final(self).code() == old(self).code().update(placeholder.pos(), u16_be((placeholder.pos() - jump_to + 2) as u16)[0])
                .update(placeholder.pos() + 1, u16_be((placeholder.pos() - jump_to + 2) as u16)[1]),
            final(self).calls() == old(self).calls(),
            final(self).ctx() == old(self).ctx(),
            final(self).frame_size() == old(self).frame_size(),
            final(self).header() == old(self).header(),
            final(self).consts() == old(self).consts(),
            final(self).lists() == old(self).lists(),
            old(self).wf() ==> final(self).wf(),
    {
        let _len = self.get_position();
        let diff = (placeholder.position - jump_to + 2) as u16;
        self.bytecode.bytecode.set(placeholder.position, (diff / 256) as u8);
        self.bytecode.bytecode.set(placeholder.position + 1, (diff % 256) as u8);
    }
}

} // verus!

verus! {

impl<'a> BytecodeGenerator<'a> {
    /// Index of the local `name` (the one declared last under that name).
    fn local_index(&self, name: &str) -> (r: Option<usize>)
        ensures
            match local_of(self.ctx().locals, name@) {
                Some(slot) => r matches Some(k) && k < self.locals@.len() && slot == (self.locals@[k as int].offset as int, self.locals@[k as int].typ@),
                None => r is None,
            },
    {
        let ghost ls = locals_model(self.locals@);
        let mut k: usize = self.locals.len();
        assert(ls.take(k as int) =~= ls);
        while k > 0
            invariant
                k <= self.locals@.len(),
                ls == locals_model(self.locals@),
                ls == self.ctx().locals,
                local_of(ls, name@) == local_of(ls.take(k as int), name@),
            decreases k,
        {
            assert(ls.take(k as int).drop_last() =~= ls.take(k - 1));
            if crate::text::same_text(self.locals[k - 1].name.as_str(), name) {
                return Some(k - 1);
            }
            k = k - 1;
        }
        None
    }

    /// Sum of the sizes of the types of `args`.
    fn args_size(args: &Vec<VExprTyped>) -> (r: u8)
        requires
            exprs_size(args@) <= 255,
        ensures
            r == exprs_size(args@),
    {
        let ghost ms = args@.map_values(|e: VExprTyped| e.expr_type@);
        let mut sum: u8 = 0;
        let mut i: usize = 0;
        while i < args.len()
            invariant
                i <= args@.len(),
                ms == args@.map_values(|e: VExprTyped| e.expr_type@),
                sizes_sum(ms) <= 255,
                sum == sizes_sum(ms.take(i as int)),
            decreases args@.len() - i,
        {
            proof {
                lemma_sizes_prefix(ms, i as int);
                lemma_size_nonneg(ms[i as int]);
            }
            let size = get_type_size(&args[i].expr_type);
            sum = sum + size;
            i = i + 1;
        }
        assert(ms.take(args@.len() as int) =~= ms);
        sum
    }

    /// Offset and size of the field `field` of the user type `t`.
    fn field_of(&self, t: &SymbolType, field: &str) -> (r: (u8, u8))
        requires
            self.wf(),
            has_field(self.ctx().types, t@, field@),
        ensures
            r == (field_offset_of(self.ctx().types, t@, field@), field_size_of(self.ctx().types, t@, field@)),
    {
        let meta = self.custom_types_meta.get_meta(t);
        proof {
            crate::codegen::metadata::lemma_entry_position(self.custom_types_meta.entries(), t@);
        }
        let offset = match meta.field_offset(field) {
            Some(o) => o,
            None => 0,
        };
        let size = match meta.field_size(field) {
            Some(s) => s,
            None => 0,
        };
        (offset, size)
    }

    /// Offset and size of the field `field` of values of type `t`, which
    /// is a user type.
    fn field_layout(&self, t: &VerifiedType, field: &str) -> (r: (u8, u8))
        requires
            self.wf(),
            t@ is Custom,
            has_field(self.ctx().types, t@->Custom_0, field@),
        ensures
            r == (field_offset_of(self.ctx().types, t@->Custom_0, field@), field_size_of(self.ctx().types, t@->Custom_0, field@)),
    {
        match t {
            Type::Custom(sym) => self.field_of(sym, field),
            _ => (0, 0),
        }
    }

    /// Generates `es` one after another.
    fn push_exprs(&mut self, es: &Vec<VExprTyped>)
        requires
            old(self).wf(),
            exprs_ok(old(self).ctx(), es@),
        ensures
            final(self).wf(),
            final(self).ctx() == old(self).ctx(),
            final(self).frame_size() == old(self).frame_size(),
            final(self).header() == old(self).header(),
            ({
                let g = gen_exprs(old(self).ctx(), es@, old(self).code().len() as int, old(self).consts(), old(self).lists());
                &&& final(self).code() == old(self).code() + g.bytes
                &&& final(self).calls() == old(self).calls() + g.calls
                &&& final(self).consts() == g.consts
                &&& final(self).lists() == g.lists
            }),
        decreases es@, 3nat,
    {
        let ghost ctx = self.ctx();
        let ghost header0 = self.header();
        let ghost pos = self.code().len() as int;
        let ghost code0 = self.code();
        let ghost calls0 = self.calls();
        let ghost consts0 = self.consts();
        let ghost lists0 = self.lists();
        let ghost frame0 = self.frame_size();
        let mut i: usize = 0;
        assert(es@.take(0) =~= Seq::<VExprTyped>::empty());
        while i < es.len()
            invariant
                i <= es@.len(),
                self.wf(),
                self.ctx() == ctx,
                self.frame_size() == frame0,
                self.header() == header0,
                pos == code0.len(),
                exprs_ok(ctx, es@),
                ({
                    let g = gen_exprs(ctx, es@.take(i as int), pos, consts0, lists0);
                    &&& self.code() == code0 + g.bytes
                    &&& self.calls() == calls0 + g.calls
                    &&& self.consts() == g.consts
                    &&& self.lists() == g.lists
                }),
            decreases es@.len() - i,
        {
            proof {
                lemma_exprs_ok(ctx, es@, i as int);
                assert(es@.take(i + 1).drop_last() =~= es@.take(i as int));
                assert(es@.take(i + 1).last() == es@[i as int]);
            }
            let ghost g = gen_exprs(ctx, es@.take(i as int), pos, consts0, lists0);
            self.push_expr(&es[i]);
            proof {
                let h = gen_expr(ctx, es@[i as int], pos + g.bytes.len(), g.consts, g.lists);
                assert(self.code() =~= code0 + (g.bytes + h.bytes));
                assert(self.calls() =~= calls0 + (g.calls + h.calls));
            }
            i = i + 1;
        }
        assert(es@.take(es@.len() as int) =~= es@);
    }

    /// Generates the code of `expr` (see `compile::gen_expr`).
    pub fn push_expr(&mut self, expr: &VExprTyped)
        requires
            old(self).wf(),
            expr_ok(old(self).ctx(), *expr),
        ensures
            final(self).wf(),
            final(self).ctx() == old(self).ctx(),
            final(self).frame_size() == old(self).frame_size(),
            final(self).header() == old(self).header(),
            ({
                let g = gen_expr(old(self).ctx(), *expr, old(self).code().len() as int, old(self).consts(), old(self).lists());
                &&& final(self).code() == old(self).code() + g.bytes
                &&& final(self).calls() == old(self).calls() + g.calls
                &&& final(self).consts() == g.consts
                &&& final(self).lists() == g.lists
            }),
            extends(final(self).consts(), old(self).consts()),
            extends(final(self).lists(), old(self).lists()),
        decreases *expr, 2nat,
    {
        proof {
            lemma_expr_tables(self.ctx(), *expr, self.code().len() as int, self.consts(), self.lists());
        }
        match &expr.expr {
            VExpr::Int(_) | VExpr::Float(_) | VExpr::String(_) => self.push_literal(expr),
            VExpr::Bool(_) | VExpr::CurrentActive | VExpr::Dummy(_) | VExpr::Allocate { .. } | VExpr::GetVar(_)
            | VExpr::CurrentActiveField { .. } | VExpr::CompareMaybe { .. } => self.push_simple(expr),
            VExpr::ApplyOp { .. } | VExpr::TupleValue(_) | VExpr::ListValue { .. } => self.push_sequence(expr),
            VExpr::TernaryOp { .. } => self.push_ternary(expr),
            VExpr::CallFunction { .. } | VExpr::Spawn { .. } => self.push_call(expr),
            VExpr::AccessTupleItem { .. } | VExpr::AccessField { .. } | VExpr::AccessListItem { .. } => self.push_access(expr),
        }
    }

    fn push_literal(&mut self, expr: &VExprTyped)
        requires
            old(self).wf(),
            expr_ok(old(self).ctx(), *expr),
            expr.expr is Int || expr.expr is Float || expr.expr is String,
        ensures
            final(self).wf(),
            final(self).ctx() == old(self).ctx(),
            final(self).frame_size() == old(self).frame_size(),
            final(self).header() == old(self).header(),
            ({
                let g = gen_expr(old(self).ctx(), *expr, old(self).code().len() as int, old(self).consts(), old(self).lists());
                &&& final(self).code() == old(self).code() + g.bytes
                &&& final(self).calls() == old(self).calls() + g.calls
                &&& final(self).consts() == g.consts
                &&& final(self).lists() == g.lists
            }),
    {
        let ghost ctx = self.ctx();
        let ghost code0 = self.code();
        let ghost calls0 = self.calls();
        let ghost pos = code0.len() as int;
        let ghost consts0 = self.consts();
        let ghost lists0 = self.lists();
        let ghost spec = gen_expr(ctx, *expr, pos, consts0, lists0);
        match &expr.expr {
            VExpr::Int(i) => {
                if 0 <= *i && *i < 256 {
                    self.push(LOAD_SMALL_INT);
                    self.push(*i as u8);
                } else {
                    self.push(LOAD_CONST);
                    self.push_constant(Constant::Int(*i));
                }
                assert(self.code() =~= code0 + spec.bytes);
            },
            VExpr::Float(f) => {
                self.push(LOAD_CONST);
                self.push_constant(Constant::Float(*f));
                assert(self.code() =~= code0 + spec.bytes);
            },
            VExpr::String(text) => {
                self.push(LOAD_CONST);
                let c = Constant::String(text.clone());
                assert(c@ == ConstantModel::String(text@));
                self.push_constant(c);
                assert(self.code() =~= code0 + spec.bytes);
            },
            _ => {},
        }
        assert(self.calls() =~= calls0 + spec.calls);
    }

    fn push_simple(&mut self, expr: &VExprTyped)
        requires
            old(self).wf(),
            expr_ok(old(self).ctx(), *expr),
            expr.expr is Bool || expr.expr is CurrentActive || expr.expr is Dummy || expr.expr is Allocate
                || expr.expr is GetVar || expr.expr is CurrentActiveField || expr.expr is CompareMaybe,
        ensures
            final(self).wf(),
            final(self).ctx() == old(self).ctx(),
            final(self).frame_size() == old(self).frame_size(),
            final(self).header() == old(self).header(),
            ({
                let g = gen_expr(old(self).ctx(), *expr, old(self).code().len() as int, old(self).consts(), old(self).lists());
                &&& final(self).code() == old(self).code() + g.bytes
                &&& final(self).calls() == old(self).calls() + g.calls
                &&& final(self).consts() == g.consts
                &&& final(self).lists() == g.lists
            }),
    {
        let ghost ctx = self.ctx();
        let ghost code0 = self.code();
        let ghost calls0 = self.calls();
        let ghost pos = code0.len() as int;
        let ghost consts0 = self.consts();
        let ghost lists0 = self.lists();
        let ghost spec = gen_expr(ctx, *expr, pos, consts0, lists0);
        match &expr.expr {
            VExpr::Bool(b) => {
                if *b {
                    self.push(LOAD_TRUE);
                } else {
                    self.push(LOAD_FALSE);
                }
                assert(self.code() =~= code0 + spec.bytes);
                assert(self.calls() =~= calls0 + spec.calls);
            },
            VExpr::GetVar(varname) => {
                let k = match self.local_index(varname.as_str()) {
                    Some(k) => k,
                    None => 0,
                };
                let var_pos = self.locals[k].offset;
                let size = get_type_size(&self.locals[k].typ);
                self.push(GET_LOCAL);
                self.push(var_pos);
                self.push(size);
                assert(self.code() =~= code0 + spec.bytes);
                assert(self.calls() =~= calls0 + spec.calls);
            },
            VExpr::Allocate { typename } => {
                let index = self.custom_types_meta.get_index(typename);
                self.push(ALLOCATE);
                self.push(index as u8);
                assert(self.code() =~= code0 + spec.bytes);
                assert(self.calls() =~= calls0 + spec.calls);
            },
            VExpr::Dummy(t) => {
                self.push_reserve(t);
                assert(self.code() =~= code0 + spec.bytes);
                assert(self.calls() =~= calls0 + spec.calls);
            },
            VExpr::CurrentActive => {
                self.push(CURRENT_ACTIVE);
                assert(self.code() =~= code0 + spec.bytes);
                assert(self.calls() =~= calls0 + spec.calls);
            },
            VExpr::CurrentActiveField { active_type, field } => {
                let (offset, size) = self.field_of(active_type, field.as_str());
                self.push(GET_CURRENT_ACTIVE_FIELD);
                self.push(offset);
                self.push(size);
                assert(self.code() =~= code0 + spec.bytes);
                assert(self.calls() =~= calls0 + spec.calls);
            },
            _ => {},
        }
        assert(self.code() =~= code0 + spec.bytes);
        assert(self.calls() =~= calls0 + spec.calls);
    }

    fn push_sequence(&mut self, expr: &VExprTyped)
        requires
            old(self).wf(),
            expr_ok(old(self).ctx(), *expr),
            expr.expr is ApplyOp || expr.expr is TupleValue || expr.expr is ListValue,
        ensures
            final(self).wf(),
            final(self).ctx() == old(self).ctx(),
            final(self).frame_size() == old(self).frame_size(),
            final(self).header() == old(self).header(),
            ({
                let g = gen_expr(old(self).ctx(), *expr, old(self).code().len() as int, old(self).consts(), old(self).lists());
                &&& final(self).code() == old(self).code() + g.bytes
                &&& final(self).calls() == old(self).calls() + g.calls
                &&& final(self).consts() == g.consts
                &&& final(self).lists() == g.lists
            }),
        decreases *expr, 1nat,
    {
        let ghost ctx = self.ctx();
        let ghost code0 = self.code();
        let ghost calls0 = self.calls();
        let ghost pos = code0.len() as int;
        let ghost consts0 = self.consts();
        let ghost lists0 = self.lists();
        let ghost spec = gen_expr(ctx, *expr, pos, consts0, lists0);
        match &expr.expr {
            VExpr::ApplyOp { operator, operands } => {
                self.push_exprs(operands);
                let code = match_operator(operator);
                self.push(code);
                assert(self.code() =~= code0 + spec.bytes);
                assert(self.calls() =~= calls0 + spec.calls);
            },
            VExpr::TupleValue(items) => {
                self.push_exprs(items);
                assert(self.code() =~= code0 + spec.bytes);
                assert(self.calls() =~= calls0 + spec.calls);
            },
            VExpr::ListValue { item_type, items } => {
                self.push_exprs(items);
                let ghost kinds = self.lists();
                let ghost before = self.list_kinds_meta;
                assert(before.wf());
                assert(kinds == before.kinds());
                let list_flag = self.list_kinds_meta.get_or_insert(item_type);
                proof {
                    if kinds.contains(item_type@) {
                        let c = choose|i: int| 0 <= i < kinds.len() && kinds[i] == item_type@;
                        assert(kinds[c] == item_type@);
                        assert(kinds[list_flag as int] == item_type@);
                        if c < list_flag {
                            assert(before.kinds()[c] != before.kinds()[list_flag as int]);
                        } else if c > list_flag {
                            assert(before.kinds()[list_flag as int] != before.kinds()[c]);
                        }
                        assert(c == list_flag);
                    }
                }
                self.push(ALLOCATE_LIST);
                self.push(list_flag as u8);
                self.push(items.len() as u8);
                assert(self.code() =~= code0 + spec.bytes);
                assert(self.calls() =~= calls0 + spec.calls);
            },
            _ => {},
        }
        assert(self.code() =~= code0 + spec.bytes);
        assert(self.calls() =~= calls0 + spec.calls);
    }

    fn push_ternary(&mut self, expr: &VExprTyped)
        requires
            old(self).wf(),
            expr_ok(old(self).ctx(), *expr),
            expr.expr is TernaryOp,
        ensures
            final(self).wf(),
            final(self).ctx() == old(self).ctx(),
            final(self).frame_size() == old(self).frame_size(),
            final(self).header() == old(self).header(),
            ({
                let g = gen_expr(old(self).ctx(), *expr, old(self).code().len() as int, old(self).consts(), old(self).lists());
                &&& final(self).code() == old(self).code() + g.bytes
                &&& final(self).calls() == old(self).calls() + g.calls
                &&& final(self).consts() == g.consts
                &&& final(self).lists() == g.lists
            }),
        decreases *expr, 1nat,
    {
        let ghost ctx = self.ctx();
        let ghost code0 = self.code();
        let ghost calls0 = self.calls();
        let ghost pos = code0.len() as int;
        let ghost consts0 = self.consts();
        let ghost lists0 = self.lists();
        let ghost spec = gen_expr(ctx, *expr, pos, consts0, lists0);
        match &expr.expr {
            VExpr::TernaryOp { condition, if_true, if_false } => {
                self.push_expr(&**condition);
                let ghost c = gen_expr(ctx, **condition, pos, consts0, lists0);
                self.push(JUMP_IF_FALSE);
                let placeholder_to_skip_ifbody = self.push_placeholder();
                self.push_expr(&**if_true);
                let ghost t = gen_expr(ctx, **if_true, pos + c.bytes.len() + 3, c.consts, c.lists);
                self.push(JUMP);
                let placeholder_to_skip_elsebody = self.push_placeholder();
                self.fill_placeholder(&placeholder_to_skip_ifbody);
                assert(self.code() =~= code0 + c.bytes + seq![JUMP_IF_FALSE] + u16_be((t.bytes.len() + 3) as u16) + t.bytes + seq![JUMP, 0u8, 0u8]);
                self.push_expr(&**if_false);
                let ghost f = gen_expr(ctx, **if_false, pos + c.bytes.len() + 3 + t.bytes.len() + 3, t.consts, t.lists);
                self.fill_placeholder(&placeholder_to_skip_elsebody);
                assert(self.code() =~= code0 + spec.bytes);
                assert(self.calls() =~= calls0 + spec.calls);
            },
            _ => {},
        }
        assert(self.code() =~= code0 + spec.bytes);
        assert(self.calls() =~= calls0 + spec.calls);
    }

    fn push_call(&mut self, expr: &VExprTyped)
        requires
            old(self).wf(),
            expr_ok(old(self).ctx(), *expr),
            expr.expr is CallFunction || expr.expr is Spawn,
        ensures
            final(self).wf(),
            final(self).ctx() == old(self).ctx(),
            final(self).frame_size() == old(self).frame_size(),
            final(self).header() == old(self).header(),
            ({
                let g = gen_expr(old(self).ctx(), *expr, old(self).code().len() as int, old(self).consts(), old(self).lists());
                &&& final(self).code() == old(self).code() + g.bytes
                &&& final(self).calls() == old(self).calls() + g.calls
                &&& final(self).consts() == g.consts
                &&& final(self).lists() == g.lists
            }),
        decreases *expr, 1nat,
    {
        let ghost ctx = self.ctx();
        let ghost code0 = self.code();
        let ghost calls0 = self.calls();
        let ghost pos = code0.len() as int;
        let ghost consts0 = self.consts();
        let ghost lists0 = self.lists();
        let ghost spec = gen_expr(ctx, *expr, pos, consts0, lists0);
        match &expr.expr {
            VExpr::CallFunction { name, return_type, args } => {
                let is_std = name.is_std();
                if !is_std {
                    self.push_reserve(return_type);
                }
                self.push_exprs(args);
                let func_locals_size = Self::args_size(args);
                if is_std {
                    self.push(CALL_STD);
                    self.push(func_locals_size);
                    self.push(0);
                    let index = match_std_function(name);
                    self.push(index);
                } else {
                    self.push(CALL);
                    self.push(func_locals_size);
                    self.push_function_placeholder(name);
                }
                assert(self.code() =~= code0 + spec.bytes);
                assert(self.calls() =~= calls0 + spec.calls);
            },
            VExpr::Spawn { typename, args } => {
                self.push(RESERVE);
                self.push(1);
                self.push_exprs(args);
                let constructor_name = typename.constructor();
                let index = self.custom_types_meta.get_index(typename);
                self.push(SPAWN);
                self.push(index as u8);
                self.push_function_placeholder(&constructor_name);
                assert(self.code() =~= code0 + spec.bytes);
                assert(self.calls() =~= calls0 + spec.calls);
            },
            _ => {},
        }
        assert(self.code() =~= code0 + spec.bytes);
        assert(self.calls() =~= calls0 + spec.calls);
    }

    fn push_access(&mut self, expr: &VExprTyped)
        requires
            old(self).wf(),
            expr_ok(old(self).ctx(), *expr),
            expr.expr is AccessTupleItem || expr.expr is AccessField || expr.expr is AccessListItem,
        ensures
            final(self).wf(),
            final(self).ctx() == old(self).ctx(),
            final(self).frame_size() == old(self).frame_size(),
            final(self).header() == old(self).header(),
            ({
                let g = gen_expr(old(self).ctx(), *expr, old(self).code().len() as int, old(self).consts(), old(self).lists());
                &&& final(self).code() == old(self).code() + g.bytes
                &&& final(self).calls() == old(self).calls() + g.calls
                &&& final(self).consts() == g.consts
                &&& final(self).lists() == g.lists
            }),
        decreases *expr, 1nat,
    {
        let ghost ctx = self.ctx();
        let ghost code0 = self.code();
        let ghost calls0 = self.calls();
        let ghost pos = code0.len() as int;
        let ghost consts0 = self.consts();
        let ghost lists0 = self.lists();
        let ghost spec = gen_expr(ctx, *expr, pos, consts0, lists0);
        match &expr.expr {
            VExpr::AccessTupleItem { tuple, index } => {
                let tuple_type = &tuple.expr_type;
                proof {
                    crate::codegen::utils::lemma_subitem_size(tuple_type@, *index as int);
                }
                let item_type = get_tuple_subitem_type(tuple_type, *index);
                self.push_reserve(item_type);
                self.push_expr(&**tuple);
                let mut path: Vec<usize> = Vec::new();
                path.push(*index);
                assert(path@ =~= seq![*index]);
                assert(crate::codegen::utils::valid_path(tuple_type@, path@)) by {
                    assert(path@.drop_first() =~= Seq::<usize>::empty());
                    assert(path@[0] == *index);
                    assert(crate::codegen::utils::valid_path(crate::codegen::utils::subitem(tuple_type@, *index as int), Seq::<usize>::empty()));
                }
                let offset = get_tuple_offset(tuple_type, path.as_slice());
                self.push(GET_TUPLE_ITEM);
                self.push_type_size(tuple_type);
                self.push(offset);
                self.push_type_size(item_type);
                assert(path@ =~= seq![*index]);
                assert(self.code() =~= code0 + spec.bytes);
                assert(self.calls() =~= calls0 + spec.calls);
            },
            VExpr::AccessField { object, field } => {
                self.push_expr(&**object);
                let (offset, size) = self.field_layout(&object.expr_type, field.as_str());
                self.push(GET_OBJ_FIELD);
                self.push(offset);
                self.push(size);
                assert(self.code() =~= code0 + spec.bytes);
                assert(self.calls() =~= calls0 + spec.calls);
            },
            VExpr::AccessListItem { list, index } => {
                self.push_expr(&**index);
                self.push_expr(&**list);
                self.push(GET_LIST_ITEM);
                assert(self.code() =~= code0 + spec.bytes);
                assert(self.calls() =~= calls0 + spec.calls);
            },
            _ => {},
        }
        assert(self.code() =~= code0 + spec.bytes);
        assert(self.calls() =~= calls0 + spec.calls);
    }
}

} // verus!

verus! {

/// An optional position as an integer.
pub open spec fn opt_int(o: Option<usize>) -> Option<int> {
    match o {
        Some(x) => Some(x as int),
        None => None,
    }
}

impl<'a> BytecodeGenerator<'a> {
    /// Stores the value on top of the stack into the local `name`, at the
    /// tuple item that `tuple_indexes` selects.
    fn push_set_local(&mut self, name: &str, tuple_indexes: &Vec<usize>)
        requires
            old(self).wf(),
            local_of(old(self).ctx().locals, name@) matches Some(slot) && {
                &&& crate::codegen::utils::valid_path(slot.1, tuple_indexes@)
                &&& size_of(slot.1) <= 255
                &&& 0 <= slot.0 + crate::codegen::utils::tuple_offset(slot.1, tuple_indexes@) <= 255
            },
        ensures
            final(self).wf(),
            final(self).ctx() == old(self).ctx(),
            final(self).header() == old(self).header(),
            final(self).code() == old(self).code() + set_local_code(old(self).ctx(), name@, tuple_indexes@),
            final(self).calls() == old(self).calls(),
            final(self).consts() == old(self).consts(),
            final(self).lists() == old(self).lists(),
    {
        let k = match self.local_index(name) {
            Some(k) => k,
            None => 0,
        };
        let offset = get_tuple_offset(&self.locals[k].typ, tuple_indexes.as_slice());
        let size = crate::codegen::utils::get_tuple_subitem_size(&self.locals[k].typ, tuple_indexes.as_slice());
        let slot_offset = self.locals[k].offset;
        self.push(SET_LOCAL);
        self.push(slot_offset + offset);
        self.push(size);
        assert(self.code() =~= old(self).code() + set_local_code(old(self).ctx(), name@, tuple_indexes@));
    }

    /// Returns from the function with a value of its return type.
    fn push_return(&mut self)
        requires
            old(self).wf(),
            size_of(old(self).ctx().return_type) <= 255,
        ensures
            final(self).wf(),
            final(self).ctx() == old(self).ctx(),
            final(self).header() == old(self).header(),
            final(self).code() == old(self).code() + return_code(old(self).ctx()),
            final(self).calls() == old(self).calls(),
            final(self).consts() == old(self).consts(),
            final(self).lists() == old(self).lists(),
    {
        let size = get_type_size(&self.return_type);
        self.push(RETURN);
        self.push(size);
        assert(self.code() =~= old(self).code() + return_code(old(self).ctx()));
    }

    /// Generates the code of `statement` (see `compile::gen_stmt`); gives
    /// back the placeholders of `break` jumps, which the enclosing loop
    /// fills.
    pub fn push_statement(&mut self, statement: &VStatement, loop_start: Option<usize>) -> (r: Vec<JumpPlaceholder>)
        requires
            old(self).wf(),
            stmt_ok(old(self).ctx(), *statement, loop_start is Some),
            loop_start matches Some(st) ==> st <= old(self).code().len(),
        ensures
            final(self).wf(),
            final(self).ctx() == old(self).ctx(),
            final(self).header() == old(self).header(),
            ({
                let g = gen_stmt(old(self).ctx(), *statement, old(self).code().len() as int, old(self).consts(), old(self).lists(), opt_int(loop_start));
                &&& final(self).code() == old(self).code() + g.gen.bytes
                &&& final(self).calls() == old(self).calls() + g.gen.calls
                &&& final(self).consts() == g.gen.consts
                &&& final(self).lists() == g.gen.lists
                &&& r@.map_values(|p: JumpPlaceholder| p.pos()) == g.breaks
            }),
            forall|k: int| 0 <= k < r@.len() ==> old(self).code().len() <= (#[trigger] r@[k]).pos() && r@[k].pos() + 2 <= final(self).code().len(),
            extends(final(self).consts(), old(self).consts()),
            extends(final(self).lists(), old(self).lists()),
        decreases *statement, 2nat,
    {
        proof {
            lemma_stmt_tables(self.ctx(), *statement, self.code().len() as int, self.consts(), self.lists(), opt_int(loop_start));
        }
        match statement {
            VStatement::IfElse { .. } => self.push_if(statement, loop_start),
            VStatement::While { .. } => self.push_while(statement, loop_start),
            VStatement::AssignToField { .. } | VStatement::AssignToList { .. } | VStatement::SendMessage { .. } => {
                self.push_heap_statement(statement, loop_start)
            },
            _ => self.push_simple_statement(statement, loop_start),
        }
    }

    fn push_simple_statement(&mut self, statement: &VStatement, loop_start: Option<usize>) -> (r: Vec<JumpPlaceholder>)
        requires
            old(self).wf(),
            stmt_ok(old(self).ctx(), *statement, loop_start is Some),
            loop_start matches Some(st) ==> st <= old(self).code().len(),
            !(statement is IfElse || statement is While || statement is AssignToField || statement is AssignToList || statement is SendMessage),
        ensures
            final(self).wf(),
            final(self).ctx() == old(self).ctx(),
            final(self).header() == old(self).header(),
            ({
                let g = gen_stmt(old(self).ctx(), *statement, old(self).code().len() as int, old(self).consts(), old(self).lists(), opt_int(loop_start));
                &&& final(self).code() == old(self).code() + g.gen.bytes
                &&& final(self).calls() == old(self).calls() + g.gen.calls
                &&& final(self).consts() == g.gen.consts
                &&& final(self).lists() == g.gen.lists
                &&& r@.map_values(|p: JumpPlaceholder| p.pos()) == g.breaks
            }),
            forall|k: int| 0 <= k < r@.len() ==> old(self).code().len() <= (#[trigger] r@[k]).pos() && r@[k].pos() + 2 <= final(self).code().len(),
    {
        let ghost ctx = self.ctx();
        let ghost code0 = self.code();
        let ghost calls0 = self.calls();
        let ghost pos = code0.len() as int;
        let ghost consts0 = self.consts();
        let ghost lists0 = self.lists();
        let ghost spec = gen_stmt(ctx, *statement, pos, consts0, lists0, opt_int(loop_start));
        let mut breaks: Vec<JumpPlaceholder> = Vec::new();
        match statement {
            VStatement::Expression(expr) => {
                self.push_expr(expr);
                self.push_pop(&expr.expr_type);
                assert(self.code() =~= code0 + spec.gen.bytes);
                assert(self.calls() =~= calls0 + spec.gen.calls);
            },
            VStatement::AssignLocal { name, tuple_indexes, value } => {
                self.push_expr(value);
                self.push_set_local(name.as_str(), tuple_indexes);
                assert(self.code() =~= code0 + spec.gen.bytes);
                assert(self.calls() =~= calls0 + spec.gen.calls);
            },
            VStatement::Return(expr) => {
                self.push_expr(expr);
                self.push_return();
                assert(self.code() =~= code0 + spec.gen.bytes);
                assert(self.calls() =~= calls0 + spec.gen.calls);
            },
            VStatement::Break => {
                self.push(JUMP);
                let placeholder = self.push_placeholder();
                breaks.push(placeholder);
                assert(breaks@.map_values(|p: JumpPlaceholder| p.pos()) =~= seq![pos + 1]);
                assert(self.code() =~= code0 + spec.gen.bytes);
                assert(self.calls() =~= calls0 + spec.gen.calls);
            },
            VStatement::Continue => {
                self.push(JUMP_BACK);
                let placeholder_to_jump_back = self.push_placeholder();
                let start = match loop_start {
                    Some(st) => st,
                    None => 0,
                };
                self.fill_placeholder_backward(&placeholder_to_jump_back, start);
                assert(self.code() =~= code0 + spec.gen.bytes);
                assert(self.calls() =~= calls0 + spec.gen.calls);
            },
            VStatement::AssignToCurrentActiveField { active_type, field, value, tuple_indexes } => {
                self.push_expr(value);
                let (field_offset, _field_size) = self.field_of(active_type, field.as_str());
                let tuple_offset = get_tuple_offset(&value.expr_type, tuple_indexes.as_slice());
                self.push(SET_CURRENT_ACTIVE_FIELD);
                self.push(field_offset + tuple_offset);
                self.push_type_size(&value.expr_type);
                assert(self.code() =~= code0 + spec.gen.bytes);
                assert(self.calls() =~= calls0 + spec.gen.calls);
            },
            _ => {},
        }
        assert(breaks@.map_values(|p: JumpPlaceholder| p.pos()) =~= spec.breaks);
        breaks
    }
}

} // verus!

verus! {

impl<'a> BytecodeGenerator<'a> {
    /// Generates `ss` one after another; gives back their `break`
    /// placeholders.
    fn push_statements(&mut self, ss: &Vec<VStatement>, loop_start: Option<usize>) -> (r: Vec<JumpPlaceholder>)
        requires
            old(self).wf(),
            stmts_ok(old(self).ctx(), ss@, loop_start is Some),
            loop_start matches Some(st) ==> st <= old(self).code().len(),
        ensures
            final(self).wf(),
            final(self).ctx() == old(self).ctx(),
            final(self).header() == old(self).header(),
            ({
                let g = gen_stmts(old(self).ctx(), ss@, old(self).code().len() as int, old(self).consts(), old(self).lists(), opt_int(loop_start));
                &&& final(self).code() == old(self).code() + g.gen.bytes
                &&& final(self).calls() == old(self).calls() + g.gen.calls
                &&& final(self).consts() == g.gen.consts
                &&& final(self).lists() == g.gen.lists
                &&& r@.map_values(|p: JumpPlaceholder| p.pos()) == g.breaks
            }),
            forall|k: int| 0 <= k < r@.len() ==> old(self).code().len() <= (#[trigger] r@[k]).pos() && r@[k].pos() + 2 <= final(self).code().len(),
        decreases ss@, 3nat,
    {
        let ghost ctx = self.ctx();
        let ghost header0 = self.header();
        let ghost pos = self.code().len() as int;
        let ghost code0 = self.code();
        let ghost calls0 = self.calls();
        let ghost consts0 = self.consts();
        let ghost lists0 = self.lists();
        let ghost ls = opt_int(loop_start);
        let mut breaks: Vec<JumpPlaceholder> = Vec::new();
        let mut i: usize = 0;
        assert(ss@.take(0) =~= Seq::<VStatement>::empty());
        while i < ss.len()
            invariant
                i <= ss@.len(),
                self.wf(),
                self.ctx() == ctx,
                self.header() == header0,
                pos == code0.len(),
                ls == opt_int(loop_start),
                loop_start matches Some(st) ==> st <= code0.len(),
                code0.len() <= self.code().len(),
                stmts_ok(ctx, ss@, loop_start is Some),
                ({
                    let g = gen_stmts(ctx, ss@.take(i as int), pos, consts0, lists0, ls);
                    &&& self.code() == code0 + g.gen.bytes
                    &&& self.calls() == calls0 + g.gen.calls
                    &&& self.consts() == g.gen.consts
                    &&& self.lists() == g.gen.lists
                    &&& breaks@.map_values(|p: JumpPlaceholder| p.pos()) == g.breaks
                }),
                forall|k: int| 0 <= k < breaks@.len() ==> code0.len() <= (#[trigger] breaks@[k]).pos() && breaks@[k].pos() + 2 <= self.code().len(),
            decreases ss@.len() - i,
        {
            proof {
                lemma_stmts_ok(ctx, ss@, loop_start is Some, i as int);
                assert(ss@.take(i + 1).drop_last() =~= ss@.take(i as int));
                assert(ss@.take(i + 1).last() == ss@[i as int]);
            }
            let ghost g = gen_stmts(ctx, ss@.take(i as int), pos, consts0, lists0, ls);
            let ghost before_breaks = breaks@;
            let ghost before_len = self.code().len();
            let mut more = self.push_statement(&ss[i], loop_start);
            proof {
                let h = gen_stmt(ctx, ss@[i as int], pos + g.gen.bytes.len(), g.gen.consts, g.gen.lists, ls);
                assert(self.code() =~= code0 + (g.gen.bytes + h.gen.bytes));
                assert(self.calls() =~= calls0 + (g.gen.calls + h.gen.calls));
            }
            let ghost more_view = more@;
            breaks.append(&mut more);
            proof {
                assert(breaks@ =~= before_breaks + more_view);
                let h = gen_stmt(ctx, ss@[i as int], pos + g.gen.bytes.len(), g.gen.consts, g.gen.lists, ls);
                assert(breaks@.map_values(|p: JumpPlaceholder| p.pos()) =~= g.breaks + h.breaks);
                assert forall|k: int| 0 <= k < breaks@.len() implies code0.len() <= (#[trigger] breaks@[k]).pos() && breaks@[k].pos() + 2 <= self.code().len() by {
                    if k < before_breaks.len() {
                        assert(breaks@[k] == before_breaks[k]);
                    } else {
                        assert(breaks@[k] == more_view[k - before_breaks.len()]);
                    }
                }
            }
            i = i + 1;
        }
        assert(ss@.take(ss@.len() as int) =~= ss@);
        breaks
    }

    fn push_heap_statement(&mut self, statement: &VStatement, loop_start: Option<usize>) -> (r: Vec<JumpPlaceholder>)
        requires
            old(self).wf(),
            stmt_ok(old(self).ctx(), *statement, loop_start is Some),
            loop_start matches Some(st) ==> st <= old(self).code().len(),
            statement is AssignToField || statement is AssignToList || statement is SendMessage,
        ensures
            final(self).wf(),
            final(self).ctx() == old(self).ctx(),
            final(self).header() == old(self).header(),
            ({
                let g = gen_stmt(old(self).ctx(), *statement, old(self).code().len() as int, old(self).consts(), old(self).lists(), opt_int(loop_start));
                &&& final(self).code() == old(self).code() + g.gen.bytes
                &&& final(self).calls() == old(self).calls() + g.gen.calls
                &&& final(self).consts() == g.gen.consts
                &&& final(self).lists() == g.gen.lists
                &&& r@.map_values(|p: JumpPlaceholder| p.pos()) == g.breaks
            }),
            forall|k: int| 0 <= k < r@.len() ==> old(self).code().len() <= (#[trigger] r@[k]).pos() && r@[k].pos() + 2 <= final(self).code().len(),
        decreases *statement, 1nat,
    {
        let ghost ctx = self.ctx();
        let ghost code0 = self.code();
        let ghost calls0 = self.calls();
        let ghost pos = code0.len() as int;
        let ghost consts0 = self.consts();
        let ghost lists0 = self.lists();
        let ghost spec = gen_stmt(ctx, *statement, pos, consts0, lists0, opt_int(loop_start));
        match statement {
            VStatement::AssignToField { object, field, tuple_indexes, value } => {
                // The value goes first: the object's pointer is taken off
                // the stack before the value is written through it.
                self.push_expr(value);
                self.push_expr(object);
                let (field_offset, field_type) = self.field_offset_and_type(&object.expr_type, field.as_str());
                let tuple_offset = get_tuple_offset(&field_type, tuple_indexes.as_slice());
                self.push(SET_OBJ_FIELD);
                self.push(field_offset + tuple_offset);
                self.push_type_size(&value.expr_type);
                assert(self.code() =~= code0 + spec.gen.bytes);
                assert(self.calls() =~= calls0 + spec.gen.calls);
            },
            VStatement::AssignToList { list, index, tuple_indexes, value } => {
                self.push_expr(value);
                self.push_expr(index);
                self.push_expr(list);
                let tuple_offset = match &list.expr_type {
                    Type::List(item) => get_tuple_offset(&**item, tuple_indexes.as_slice()),
                    _ => 0,
                };
                self.push(SET_LIST_ITEM);
                self.push(tuple_offset);
                self.push_type_size(&value.expr_type);
                assert(self.code() =~= code0 + spec.gen.bytes);
                assert(self.calls() =~= calls0 + spec.gen.calls);
            },
            VStatement::SendMessage { active, receiver, args } => {
                self.push_expr(active);
                self.push_exprs(args);
                self.push(SEND_MESSAGE);
                self.push_function_placeholder(receiver);
                assert(self.code() =~= code0 + spec.gen.bytes);
                assert(self.calls() =~= calls0 + spec.gen.calls);
            },
            _ => {},
        }
        let breaks: Vec<JumpPlaceholder> = Vec::new();
        assert(breaks@.map_values(|p: JumpPlaceholder| p.pos()) =~= spec.breaks);
        breaks
    }

    /// Offset and type of the field `field` of values of type `t`, which is
    /// a user type.
    fn field_offset_and_type(&self, t: &VerifiedType, field: &str) -> (r: (u8, VerifiedType))
        requires
            self.wf(),
            t@ is Custom,
            has_field(self.ctx().types, t@->Custom_0, field@),
        ensures
            r.0 == field_offset_of(self.ctx().types, t@->Custom_0, field@),
            r.1@ == field_type_of(self.ctx().types, t@->Custom_0, field@),
    {
        match t {
            Type::Custom(sym) => {
                let meta = self.custom_types_meta.get_meta(sym);
                proof {
                    crate::codegen::metadata::lemma_entry_position(self.custom_types_meta.entries(), sym@);
                }
                let offset = match meta.field_offset(field) {
                    Some(o) => o,
                    None => 0,
                };
                match meta.field_type(field) {
                    Some(ft) => (offset, ft.duplicate()),
                    None => (offset, t.duplicate()),
                }
            },
            _ => (0, t.duplicate()),
        }
    }

    #[verifier::spinoff_prover]
    #[verifier::rlimit(40)]
    fn push_if(&mut self, statement: &VStatement, loop_start: Option<usize>) -> (r: Vec<JumpPlaceholder>)
        requires
            old(self).wf(),
            stmt_ok(old(self).ctx(), *statement, loop_start is Some),
            loop_start matches Some(st) ==> st <= old(self).code().len(),
            statement is IfElse,
        ensures
            final(self).wf(),
            final(self).ctx() == old(self).ctx(),
            final(self).header() == old(self).header(),
            ({
                let g = gen_stmt(old(self).ctx(), *statement, old(self).code().len() as int, old(self).consts(), old(self).lists(), opt_int(loop_start));
                &&& final(self).code() == old(self).code() + g.gen.bytes
                &&& final(self).calls() == old(self).calls() + g.gen.calls
                &&& final(self).consts() == g.gen.consts
                &&& final(self).lists() == g.gen.lists
                &&& r@.map_values(|p: JumpPlaceholder| p.pos()) == g.breaks
            }),
            forall|k: int| 0 <= k < r@.len() ==> old(self).code().len() <= (#[trigger] r@[k]).pos() && r@[k].pos() + 2 <= final(self).code().len(),
        decreases *statement, 1nat,
    {
        let ghost ctx = self.ctx();
        let ghost code0 = self.code();
        let ghost calls0 = self.calls();
        let ghost pos = code0.len() as int;
        let ghost consts0 = self.consts();
        let ghost lists0 = self.lists();
        let ghost spec = gen_stmt(ctx, *statement, pos, consts0, lists0, opt_int(loop_start));
        let mut outer_break_placeholders: Vec<JumpPlaceholder> = Vec::new();
        match statement {
            VStatement::IfElse { condition, if_body, else_body } => {
                self.push_expr(condition);
                let ghost c = gen_expr(ctx, *condition, pos, consts0, lists0);
                self.push(JUMP_IF_FALSE);
                let placeholder_to_skip_ifbody = self.push_placeholder();
                let mut breaks = self.push_statements(if_body, loop_start);
                let ghost ib = gen_stmts(ctx, if_body@, pos + c.bytes.len() + 3, c.consts, c.lists, opt_int(loop_start));
                let ghost if_breaks = breaks@;
                if else_body.len() == 0 {
                    self.fill_placeholder(&placeholder_to_skip_ifbody);
                    outer_break_placeholders.append(&mut breaks);
                    proof {
                        assert(outer_break_placeholders@ =~= if_breaks);
                        assert forall|k: int| 0 <= k < outer_break_placeholders@.len() implies code0.len() <= (#[trigger] outer_break_placeholders@[k]).pos() && outer_break_placeholders@[k].pos() + 2 <= self.code().len() by {
                            assert(outer_break_placeholders@[k] == if_breaks[k]);
                        }
                    }
                assert(self.code() =~= code0 + spec.gen.bytes);
                assert(self.calls() =~= calls0 + spec.gen.calls);
                } else {
                    self.push(JUMP);
                    let placeholder_to_skip_elsebody = self.push_placeholder();
                    self.fill_placeholder(&placeholder_to_skip_ifbody);
                    assert(self.code() =~= code0 + c.bytes + seq![JUMP_IF_FALSE] + u16_be((ib.gen.bytes.len() + 3) as u16) + ib.gen.bytes + seq![JUMP, 0u8, 0u8]);
                    let mut else_breaks = self.push_statements(else_body, loop_start);
                    let ghost eb = gen_stmts(ctx, else_body@, pos + c.bytes.len() + 3 + ib.gen.bytes.len() + 3, ib.gen.consts, ib.gen.lists, opt_int(loop_start));
                    let ghost else_view = else_breaks@;
                    self.fill_placeholder(&placeholder_to_skip_elsebody);
                    outer_break_placeholders.append(&mut breaks);
                    outer_break_placeholders.append(&mut else_breaks);
                    proof {
                        assert(outer_break_placeholders@ =~= if_breaks + else_view);
                        assert(outer_break_placeholders@.map_values(|p: JumpPlaceholder| p.pos()) =~= ib.breaks + eb.breaks);
                        assert forall|k: int| 0 <= k < outer_break_placeholders@.len() implies code0.len() <= (#[trigger] outer_break_placeholders@[k]).pos() && outer_break_placeholders@[k].pos() + 2 <= self.code().len() by {
                            if k < if_breaks.len() {
                                assert(outer_break_placeholders@[k] == if_breaks[k]);
                            } else {
                                assert(outer_break_placeholders@[k] == else_view[k - if_breaks.len()]);
                            }
                        }
                    }
                assert(self.code() =~= code0 + spec.gen.bytes);
                assert(self.calls() =~= calls0 + spec.gen.calls);
                }
            },
            _ => {},
        }
        assert(outer_break_placeholders@.map_values(|p: JumpPlaceholder| p.pos()) =~= spec.breaks);
        outer_break_placeholders
    }
}

} // verus!

verus! {

impl<'a> BytecodeGenerator<'a> {
    fn push_while(&mut self, statement: &VStatement, loop_start: Option<usize>) -> (r: Vec<JumpPlaceholder>)
        requires
            old(self).wf(),
            stmt_ok(old(self).ctx(), *statement, loop_start is Some),
            loop_start matches Some(st) ==> st <= old(self).code().len(),
            statement is While,
        ensures
            final(self).wf(),
            final(self).ctx() == old(self).ctx(),
            final(self).header() == old(self).header(),
            ({
                let g = gen_stmt(old(self).ctx(), *statement, old(self).code().len() as int, old(self).consts(), old(self).lists(), opt_int(loop_start));
                &&& final(self).code() == old(self).code() + g.gen.bytes
                &&& final(self).calls() == old(self).calls() + g.gen.calls
                &&& final(self).consts() == g.gen.consts
                &&& final(self).lists() == g.gen.lists
                &&& r@.map_values(|p: JumpPlaceholder| p.pos()) == g.breaks
            }),
            forall|k: int| 0 <= k < r@.len() ==> old(self).code().len() <= (#[trigger] r@[k]).pos() && r@[k].pos() + 2 <= final(self).code().len(),
        decreases *statement, 1nat,
    {
        let ghost ctx = self.ctx();
        let ghost code0 = self.code();
        let ghost calls0 = self.calls();
        let ghost pos = code0.len() as int;
        let ghost consts0 = self.consts();
        let ghost lists0 = self.lists();
        let ghost spec = gen_stmt(ctx, *statement, pos, consts0, lists0, opt_int(loop_start));
        match statement {
            VStatement::While { condition, body } => {
                let start_pos = self.get_position();
                self.push_expr(condition);
                let ghost c = gen_expr(ctx, *condition, pos, consts0, lists0);
                self.push(JUMP_IF_FALSE);
                let placeholder_to_skip_loop = self.push_placeholder();
                let ghost body_start = self.code().len() as int;
                let loop_breaks = self.push_statements(body, Some(start_pos));
                let ghost b = gen_stmts(ctx, body@, body_start, c.consts, c.lists, Some(pos));
                self.push(JUMP_BACK);
                let placeholder_to_jump_back = self.push_placeholder();
                // Jump back to the condition.
                self.fill_placeholder_backward(&placeholder_to_jump_back, start_pos);
                // After the loop: the condition's exit and every break land here.
                self.fill_placeholder(&placeholder_to_skip_loop);
                let ghost end = self.code().len() as int;
                let ghost head = code0 + c.bytes + seq![JUMP_IF_FALSE] + u16_be((b.gen.bytes.len() + 3) as u16);
                let ghost tail = seq![JUMP_BACK] + u16_be((c.bytes.len() + b.gen.bytes.len() + 6) as u16);
                let ghost bps = loop_breaks@.map_values(|p: JumpPlaceholder| p.pos());
                assert(self.code() =~= head + fill_breaks(b.gen.bytes, body_start, bps.take(0), end) + tail);
                self.fill_breaks_at_end(&loop_breaks, Ghost(head), Ghost(b.gen.bytes), Ghost(body_start), Ghost(tail));
                assert(self.code() =~= code0 + spec.gen.bytes);
                assert(self.calls() =~= calls0 + spec.gen.calls);
            },
            _ => {},
        }
        let breaks: Vec<JumpPlaceholder> = Vec::new();
        assert(breaks@.map_values(|p: JumpPlaceholder| p.pos()) =~= spec.breaks);
        breaks
    }
}

} // verus!

verus! {

impl<'a> BytecodeGenerator<'a> {
    /// Fills every break placeholder of a loop body with a jump to the
    /// current position, the end of the loop.
    fn fill_breaks_at_end(
        &mut self,
        loop_breaks: &Vec<JumpPlaceholder>,
        Ghost(head): Ghost<Seq<u8>>,
        Ghost(body): Ghost<Seq<u8>>,
        Ghost(body_start): Ghost<int>,
        Ghost(tail): Ghost<Seq<u8>>,
    )
        requires
            old(self).code() == head + body + tail,
            head.len() == body_start,
            forall|j: int| 0 <= j < loop_breaks@.len() ==> body_start <= (#[trigger] loop_breaks@[j]).pos() && loop_breaks@[j].pos() + 2 <= body_start + body.len(),
        ensures
            final(self).code() == head + fill_breaks(body, body_start, loop_breaks@.map_values(|p: JumpPlaceholder| p.pos()), old(self).code().len() as int) + tail,
            final(self).calls() == old(self).calls(),
            final(self).ctx() == old(self).ctx(),
            final(self).header() == old(self).header(),
            final(self).consts() == old(self).consts(),
            final(self).lists() == old(self).lists(),
            old(self).wf() ==> final(self).wf(),
    {
        let ghost end = self.code().len() as int;
        let ghost bps = loop_breaks@.map_values(|p: JumpPlaceholder| p.pos());
        assert(self.code() =~= head + fill_breaks(body, body_start, bps.take(0), end) + tail);
        let mut k: usize = 0;
        while k < loop_breaks.len()
            invariant
                k <= loop_breaks@.len(),
                old(self).wf() ==> self.wf(),
                self.ctx() == old(self).ctx(),
                self.header() == old(self).header(),
                self.calls() == old(self).calls(),
                self.consts() == old(self).consts(),
                self.lists() == old(self).lists(),
                bps == loop_breaks@.map_values(|p: JumpPlaceholder| p.pos()),
                head.len() == body_start,
                end == old(self).code().len(),
                end == head.len() + body.len() + tail.len(),
                forall|j: int| 0 <= j < loop_breaks@.len() ==> body_start <= (#[trigger] loop_breaks@[j]).pos() && loop_breaks@[j].pos() + 2 <= body_start + body.len(),
                self.code() == head + fill_breaks(body, body_start, bps.take(k as int), end) + tail,
            decreases loop_breaks@.len() - k,
        {
            proof {
                assert forall|j: int| 0 <= j < bps.take(k as int).len() implies body_start <= #[trigger] bps.take(k as int)[j] && bps.take(k as int)[j] + 2 <= body_start + body.len() by {
                    assert(bps.take(k as int)[j] == loop_breaks@[j].pos());
                }
                crate::codegen::compile::lemma_fill_breaks_len(body, body_start, bps.take(k as int), end);
                assert(bps.take(k + 1).drop_last() =~= bps.take(k as int));
                assert(bps.take(k + 1).last() == loop_breaks@[k as int].pos());
            }
            let ghost filled = fill_breaks(body, body_start, bps.take(k as int), end);
            let ghost p = loop_breaks@[k as int].pos();
            self.fill_placeholder(&loop_breaks[k]);
            proof {
                let v = u16_be((end - p - 2) as u16);
                assert(self.code() =~= head + filled.update(p - body_start, v[0]).update(p - body_start + 1, v[1]) + tail);
            }
            k = k + 1;
        }
        assert(bps.take(loop_breaks@.len() as int) =~= bps);
    }
}

} // verus!

verus! {

impl<'a> BytecodeGenerator<'a> {
    /// A generator for `function`, whose arguments take the first slots of
    /// the frame, one after another.
    pub fn new(
        custom_types_meta: &'a CustomTypesMetadataTable,
        list_kinds_meta: ListKindsMetadataTable,
        constants: ConstantsTable,
        function: &RawFunction,
    ) -> (r: Self)
        requires
            function.args.wf(),
            sizes_sum(function.args.type_models()) <= 255,
            list_kinds_meta.wf(),
            types_ok(*custom_types_meta),
        ensures
            r.wf(),
            r.ctx() == (GenContext {
                locals: crate::codegen::compile::frame_locals(function.args.name_texts(), function.args.type_models(), 0),
                types: *custom_types_meta,
                return_type: function.return_type@,
            }),
            r.frame_size() == sizes_sum(function.args.type_models()),
            r.code() == Seq::<u8>::empty(),
            r.calls() == Seq::<(int, SymbolModel)>::empty(),
            r.consts() == constants@,
            r.lists() == list_kinds_meta.kinds(),
            r.header() == (function.name@, sizes_sum(function.args.type_models()) as usize, sizes_sum(function.args.type_models()) as usize, Seq::<usize>::empty()),
            r.function().name@ == function.name@,
            r.function().locals_size == sizes_sum(function.args.type_models()),
            r.function().args_size == sizes_sum(function.args.type_models()),
            r.function().args_pointer_mapping@ == Seq::<usize>::empty(),
    {
        let ghost ms = function.args.type_models();
        let ghost ns = function.args.name_texts();
        let mut locals: Vec<LocalVar> = Vec::new();
        let mut locals_offset: u8 = 0;
        let mut i: usize = 0;
        while i < function.args.types.len()
            invariant
                function.args.wf(),
                ms == function.args.type_models(),
                ns == function.args.name_texts(),
                sizes_sum(ms) <= 255,
                i <= ms.len(),
                locals_offset == sizes_sum(ms.take(i as int)),
                locals@.len() == i,
                locals_model(locals@) == crate::codegen::compile::frame_locals(ns.take(i as int), ms.take(i as int), 0),
            decreases ms.len() - i,
        {
            proof {
                lemma_sizes_prefix(ms, i as int);
                lemma_size_nonneg(ms[i as int]);
            }
            let size = get_type_size(&function.args.types[i]);
            let ghost before = locals_model(locals@);
            locals.push(LocalVar { name: function.args.names[i].clone(), offset: locals_offset, typ: function.args.types[i].duplicate() });
            proof {
                assert forall|j: int| 0 <= j <= i implies #[trigger] ms.take(i + 1).take(j) =~= ms.take(j) by {}
                assert forall|j: int| 0 <= j < i implies #[trigger] ms.take(i as int).take(j) =~= ms.take(j) by {}
                assert(ns.len() == ms.len());
                assert(before.len() == i);
                let lm = locals_model(locals@);
                let fl = crate::codegen::compile::frame_locals(ns.take(i + 1), ms.take(i + 1), 0);
                let fl0 = crate::codegen::compile::frame_locals(ns.take(i as int), ms.take(i as int), 0);
                assert(lm.len() == fl.len());
                assert forall|j: int| 0 <= j < lm.len() implies lm[j] == fl[j] by {
                    if j < i {
                        assert(lm[j] == before[j]);
                        assert(before[j] == fl0[j]);
                        assert(ms.take(i + 1).take(j) == ms.take(j));
                        assert(ms.take(i as int).take(j) == ms.take(j));
                    } else {
                        assert(ms.take(i + 1).take(i as int) == ms.take(i as int));
                        assert(ns[j] == function.args.names@[j]@);
                        assert(ms[j] == function.args.types@[j]@);
                    }
                }
                assert(lm =~= fl);
            }
            locals_offset = locals_offset + size;
            i = i + 1;
        }
        assert(ms.take(ms.len() as int) =~= ms);
        assert(ns.take(ns.len() as int) =~= ns);
        let r = BytecodeGenerator {
            custom_types_meta,
            list_kinds_meta,
            constants,
            locals,
            locals_offset,
            return_type: function.return_type.duplicate(),
            bytecode: FunctionBytecode {
                name: function.name.duplicate(),
                bytecode: Vec::new(),
                call_placeholders: Vec::new(),
                locals_size: locals_offset as usize,
                args_size: locals_offset as usize,
                args_pointer_mapping: Vec::new(),
            },
        };
        assert(r.calls() =~= Seq::<(int, SymbolModel)>::empty());
        r
    }

    /// Declares the local `varname` of type `t` in the next slots of the
    /// frame.
    pub fn add_local(&mut self, varname: &String, t: &VerifiedType)
        requires
            old(self).frame_size() + size_of(t@) <= 255,
        ensures
            final(self).ctx() == (GenContext { locals: old(self).ctx().locals.push((varname@, old(self).frame_size(), t@)), ..old(self).ctx() }),
            final(self).frame_size() == old(self).frame_size() + size_of(t@),
            final(self).code() == old(self).code(),
            final(self).calls() == old(self).calls(),
            final(self).consts() == old(self).consts(),
            final(self).lists() == old(self).lists(),
            final(self).function() == old(self).function(),
            final(self).header() == old(self).header(),
            old(self).wf() ==> final(self).wf(),
    {
        proof {
            lemma_size_nonneg(t@);
        }
        let size = get_type_size(t);
        self.locals.push(LocalVar { name: varname.clone(), offset: self.locals_offset, typ: t.duplicate() });
        self.locals_offset = self.locals_offset + size;
        assert(self.ctx().locals =~= old(self).ctx().locals.push((varname@, old(self).locals_offset as int, t@)));
    }

    /// The generated code, and the tables as generation left them.
    pub fn finish(self) -> (r: (FunctionBytecode, ListKindsMetadataTable, ConstantsTable))
        ensures
            r.0.name@ == self.header().0,
            r.0.bytecode@ == self.code(),
            r.0.call_models() == self.calls(),
            r.0.locals_size == self.header().1,
            r.0.args_size == self.header().2,
            r.0.args_pointer_mapping@ == self.header().3,
            r.1.kinds() == self.lists(),
            self.wf() ==> r.1.wf(),
            r.2@ == self.consts(),
    {
        (self.bytecode, self.list_kinds_meta, self.constants)
    }
}

} // verus!

verus! {

/// Generates the code of `func` (see `compile::function_gen`), growing the
/// constants and list kinds tables.
pub fn generate_function_bytecode(
    func: &RawFunction,
    custom_types_meta: &CustomTypesMetadataTable,
    list_kinds_meta: &mut ListKindsMetadataTable,
    constants: &mut ConstantsTable,
) -> (r: Result<FunctionBytecode, String>)
    requires
        crate::codegen::compile::function_ok(*func, *custom_types_meta),
        types_ok(*custom_types_meta),
        old(list_kinds_meta).wf(),
    ensures
        final(list_kinds_meta).wf(),
        r matches Ok(fb) && {
            let g = crate::codegen::compile::function_gen(*func, *custom_types_meta, old(constants)@, old(list_kinds_meta).kinds());
            &&& fb.name@ == func.name@
            &&& fb.bytecode@ == g.bytes
            &&& fb.call_models() == g.calls
            &&& fb.locals_size == sizes_sum(func.args.type_models())
            &&& fb.args_size == sizes_sum(func.args.type_models())
            &&& fb.args_pointer_mapping@ == Seq::<usize>::empty()
            &&& final(constants)@ == g.consts
            &&& final(list_kinds_meta).kinds() == g.lists
        },
{
    let mut lists = ListKindsMetadataTable::new_empty();
    std::mem::swap(&mut lists, list_kinds_meta);
    let mut consts = ConstantsTable::new();
    std::mem::swap(&mut consts, constants);
    let ghost consts0 = consts@;
    let ghost lists0 = lists.kinds();
    let ghost args_size = sizes_sum(func.args.type_models());
    let ghost lnames = crate::codegen::compile::local_names(func.locals@);
    let ghost ltypes = crate::codegen::compile::local_types(func.locals@);
    let ghost arg_frame = crate::codegen::compile::frame_locals(func.args.name_texts(), func.args.type_models(), 0);
    proof {
        crate::codegen::utils::lemma_sizes_sum_nonneg(ltypes);
        crate::codegen::utils::lemma_sizes_sum_nonneg(func.args.type_models());
    }
    let mut generator = BytecodeGenerator::new(custom_types_meta, lists, consts, func);
    let mut total_size: u8 = 0;
    let mut i: usize = 0;
    assert(arg_frame + crate::codegen::compile::frame_locals(lnames.take(0), ltypes.take(0), args_size) =~= arg_frame);
    while i < func.locals.len()
        invariant
            i <= func.locals@.len(),
            generator.wf(),
            lnames == crate::codegen::compile::local_names(func.locals@),
            ltypes == crate::codegen::compile::local_types(func.locals@),
            args_size == sizes_sum(func.args.type_models()),
            args_size + sizes_sum(ltypes) <= 255,
            args_size >= 0,
            generator.ctx() == (GenContext {
                locals: arg_frame + crate::codegen::compile::frame_locals(lnames.take(i as int), ltypes.take(i as int), args_size),
                types: *custom_types_meta,
                return_type: func.return_type@,
            }),
            generator.frame_size() == args_size + sizes_sum(ltypes.take(i as int)),
            total_size == sizes_sum(ltypes.take(i as int)),
            generator.code() == Seq::<u8>::empty(),
            generator.calls() == Seq::<(int, SymbolModel)>::empty(),
            generator.consts() == consts0,
            generator.lists() == lists0,
            generator.header() == (func.name@, args_size as usize, args_size as usize, Seq::<usize>::empty()),
        decreases func.locals@.len() - i,
    {
        proof {
            lemma_sizes_prefix(ltypes, i as int);
            lemma_size_nonneg(ltypes[i as int]);
            crate::codegen::utils::lemma_sizes_sum_nonneg(ltypes.take(i as int));
        }
        let ghost before = generator.ctx().locals;
        let size = get_type_size(&func.locals[i].1);
        generator.add_local(&func.locals[i].0, &func.locals[i].1);
        total_size = total_size + size;
        proof {
            let fl = crate::codegen::compile::frame_locals(lnames.take(i + 1), ltypes.take(i + 1), args_size);
            let fl0 = crate::codegen::compile::frame_locals(lnames.take(i as int), ltypes.take(i as int), args_size);
            assert forall|j: int| 0 <= j <= i implies #[trigger] ltypes.take(i + 1).take(j) =~= ltypes.take(j) by {}
            assert forall|j: int| 0 <= j < i implies #[trigger] ltypes.take(i as int).take(j) =~= ltypes.take(j) by {}
            assert(fl.len() == fl0.len() + 1);
            assert forall|j: int| 0 <= j < fl.len() implies fl[j] == fl0.push((func.locals@[i as int].0@, args_size + sizes_sum(ltypes.take(i as int)), func.locals@[i as int].1@))[j] by {
                if j < i {
                    assert(ltypes.take(i + 1).take(j) == ltypes.take(j));
                    assert(ltypes.take(i as int).take(j) == ltypes.take(j));
                }
            }
            assert(fl =~= fl0.push((func.locals@[i as int].0@, args_size + sizes_sum(ltypes.take(i as int)), func.locals@[i as int].1@)));
            assert(generator.ctx().locals =~= arg_frame + fl);
        }
        i = i + 1;
    }
    assert(lnames.take(func.locals@.len() as int) =~= lnames);
    assert(ltypes.take(func.locals@.len() as int) =~= ltypes);
    assert(generator.ctx() == crate::codegen::compile::function_context(*func, *custom_types_meta));
    generator.push(RESERVE);
    generator.push(total_size);
    let _breaks = generator.push_statements(&func.body, None);
    let (bytecode, lists, consts) = generator.finish();
    *list_kinds_meta = lists;
    *constants = consts;
    let ghost g = crate::codegen::compile::function_gen(*func, *custom_types_meta, consts0, lists0);
    assert(bytecode.bytecode@ =~= g.bytes);
    assert(bytecode.call_models() =~= g.calls);
    assert(constants@ == g.consts);
    assert(list_kinds_meta.kinds() == g.lists);
    Ok(bytecode)
}

} // verus!
