//! The syntax tree that the parser builds from a file's tokens, with its
//! mathematical model. Positions are character positions in the source.
use vstd::prelude::*;

use crate::types::{ParsedType, TypeModel};

verus! {

#[derive(Debug, PartialEq, Eq, Structural, Clone, Copy)]
pub enum BinaryOp {
    Plus,
    Minus,
    Multiply,
    Divide,
    Greater,
    GreaterEqual,
    Less,
    LessEqual,
    IsEqual,
    IsNotEqual,
    And,
    Or,
    Elvis,
}

#[derive(Debug, PartialEq, Eq, Structural, Clone, Copy)]
pub enum UnaryOp {
    Not,
    Negate,
}

/// An expression and the positions of its first and last characters.
#[derive(Debug, PartialEq)]
pub struct ExprWithPos {
    pub expr: Expr,
    pub pos_first: usize,
    pub pos_last: usize,
}

/// An expression. Float literals are held as their text.
#[derive(Debug, PartialEq)]
pub enum Expr {
    Int(i64),
    String(String),
    Bool(bool),
    Nil,
    Float(String),
    This,
    Identifier(String),
    OwnFieldAccess { field: String },
    UnaryOp { op: UnaryOp, operand: Box<ExprWithPos> },
    BinOp { left: Box<ExprWithPos>, right: Box<ExprWithPos>, op: BinaryOp },
    ListAccess { list: Box<ExprWithPos>, index: Box<ExprWithPos> },
    ListValue(Vec<ExprWithPos>),
    TupleValue(Vec<ExprWithPos>),
    FunctionCall { function: String, args: Vec<ExprWithPos> },
    MethodCall { object: Box<ExprWithPos>, method: String, args: Vec<ExprWithPos> },
    MaybeMethodCall { object: Box<ExprWithPos>, method: String, args: Vec<ExprWithPos> },
    FieldAccess { object: Box<ExprWithPos>, field: String },
    OwnMethodCall { method: String, args: Vec<ExprWithPos> },
    NewClassInstance { typename: String, args: Vec<ExprWithPos> },
    SpawnActive { typename: String, args: Vec<ExprWithPos> },
}

/// An expression as plain values.
pub ghost enum ExprModel {
    Int(int),
    String(Seq<char>),
    Bool(bool),
    Nil,
    Float(Seq<char>),
    This,
    Identifier(Seq<char>),
    OwnFieldAccess(Seq<char>),
    UnaryOp(UnaryOp, Box<ExprPos>),
    BinOp(Box<ExprPos>, Box<ExprPos>, BinaryOp),
    ListAccess(Box<ExprPos>, Box<ExprPos>),
    ListValue(Seq<ExprPos>),
    TupleValue(Seq<ExprPos>),
    FunctionCall(Seq<char>, Seq<ExprPos>),
    MethodCall(Box<ExprPos>, Seq<char>, Seq<ExprPos>),
    MaybeMethodCall(Box<ExprPos>, Seq<char>, Seq<ExprPos>),
    FieldAccess(Box<ExprPos>, Seq<char>),
    OwnMethodCall(Seq<char>, Seq<ExprPos>),
    NewClassInstance(Seq<char>, Seq<ExprPos>),
    SpawnActive(Seq<char>, Seq<ExprPos>),
}

/// An expression with its positions, as plain values.
pub ghost struct ExprPos {
    pub expr: ExprModel,
    pub first: int,
    pub last: int,
}

/// The model of an expression.
#[verifier::opaque]
pub open spec fn expr_view(e: ExprWithPos) -> ExprPos
    decreases e,
{
    let m = match e.expr {
        Expr::Int(v) => ExprModel::Int(v as int),
        Expr::String(s) => ExprModel::String(s@),
        Expr::Bool(b) => ExprModel::Bool(b),
        Expr::Nil => ExprModel::Nil,
        Expr::Float(s) => ExprModel::Float(s@),
        Expr::This => ExprModel::This,
        Expr::Identifier(s) => ExprModel::Identifier(s@),
        Expr::OwnFieldAccess { field } => ExprModel::OwnFieldAccess(field@),
        Expr::UnaryOp { op, operand } => ExprModel::UnaryOp(op, Box::new(expr_view(*operand))),
        Expr::BinOp { left, right, op } => ExprModel::BinOp(
            Box::new(expr_view(*left)),
            Box::new(expr_view(*right)),
            op,
        ),
        Expr::ListAccess { list, index } => ExprModel::ListAccess(
            Box::new(expr_view(*list)),
            Box::new(expr_view(*index)),
        ),
        Expr::ListValue(items) => ExprModel::ListValue(
            Seq::new(items@.len(), |i: int| if 0 <= i < items@.len() { expr_view(items@[i]) } else { no_expr() }),
        ),
        Expr::TupleValue(items) => ExprModel::TupleValue(
            Seq::new(items@.len(), |i: int| if 0 <= i < items@.len() { expr_view(items@[i]) } else { no_expr() }),
        ),
        Expr::FunctionCall { function, args } => ExprModel::FunctionCall(
            function@,
            Seq::new(args@.len(), |i: int| if 0 <= i < args@.len() { expr_view(args@[i]) } else { no_expr() }),
        ),
        Expr::MethodCall { object, method, args } => ExprModel::MethodCall(
            Box::new(expr_view(*object)),
            method@,
            Seq::new(args@.len(), |i: int| if 0 <= i < args@.len() { expr_view(args@[i]) } else { no_expr() }),
        ),
        Expr::MaybeMethodCall { object, method, args } => ExprModel::MaybeMethodCall(
            Box::new(expr_view(*object)),
            method@,
            Seq::new(args@.len(), |i: int| if 0 <= i < args@.len() { expr_view(args@[i]) } else { no_expr() }),
        ),
        Expr::FieldAccess { object, field } => ExprModel::FieldAccess(Box::new(expr_view(*object)), field@),
        Expr::OwnMethodCall { method, args } => ExprModel::OwnMethodCall(
            method@,
            Seq::new(args@.len(), |i: int| if 0 <= i < args@.len() { expr_view(args@[i]) } else { no_expr() }),
        ),
        Expr::NewClassInstance { typename, args } => ExprModel::NewClassInstance(
            typename@,
            Seq::new(args@.len(), |i: int| if 0 <= i < args@.len() { expr_view(args@[i]) } else { no_expr() }),
        ),
        Expr::SpawnActive { typename, args } => ExprModel::SpawnActive(
            typename@,
            Seq::new(args@.len(), |i: int| if 0 <= i < args@.len() { expr_view(args@[i]) } else { no_expr() }),
        ),
    };
    ExprPos { expr: m, first: e.pos_first as int, last: e.pos_last as int }
}

/// A placeholder expression (outside any sequence's range).
pub open spec fn no_expr() -> ExprPos {
    ExprPos { expr: ExprModel::Nil, first: 0, last: 0 }
}

impl View for ExprWithPos {
    type V = ExprPos;

    open spec fn view(&self) -> ExprPos {
        expr_view(*self)
    }
}

/// The models of a sequence of expressions.
pub open spec fn exprs_view(v: Seq<ExprWithPos>) -> Seq<ExprPos> {
    v.map_values(|e: ExprWithPos| e@)
}


/// A statement and the position of its first token.
#[derive(Debug, PartialEq)]
pub struct StatementWithPos {
    pub statement: Statement,
    pub pos: usize,
}

#[derive(Debug, PartialEq)]
pub enum Statement {
    IfElse {
        condition: ExprWithPos,
        if_body: Vec<StatementWithPos>,
        elif_bodies: Vec<(ExprWithPos, Vec<StatementWithPos>)>,
        else_body: Vec<StatementWithPos>,
    },
    While { condition: ExprWithPos, body: Vec<StatementWithPos> },
    Foreach { item_name: String, iterable: ExprWithPos, body: Vec<StatementWithPos> },
    Break,
    Continue,
    Return(Option<ExprWithPos>),
    Assign { left: ExprWithPos, right: ExprWithPos },
    VarDecl(ParsedType, String),
    VarDeclWithAssign(ParsedType, String, ExprWithPos),
    SendMessage { active: ExprWithPos, method: String, args: Vec<ExprWithPos> },
    Expr(ExprWithPos),
}

/// A statement as plain values.
pub ghost enum StmtModel {
    IfElse(ExprPos, Seq<StmtPos>, Seq<(ExprPos, Seq<StmtPos>)>, Seq<StmtPos>),
    While(ExprPos, Seq<StmtPos>),
    Foreach(Seq<char>, ExprPos, Seq<StmtPos>),
    Break,
    Continue,
    Return(Option<ExprPos>),
    Assign(ExprPos, ExprPos),
    VarDecl(TypeModel<Seq<char>>, Seq<char>),
    VarDeclWithAssign(TypeModel<Seq<char>>, Seq<char>, ExprPos),
    SendMessage(ExprPos, Seq<char>, Seq<ExprPos>),
    Expr(ExprPos),
}

/// A statement with its position, as plain values.
pub ghost struct StmtPos {
    pub stmt: StmtModel,
    pub pos: int,
}

/// The model of a statement.
#[verifier::opaque]
pub open spec fn stmt_view(s: StatementWithPos) -> StmtPos
    decreases s,
{
    let m = match s.statement {
        Statement::IfElse { condition, if_body, elif_bodies, else_body } => StmtModel::IfElse(
            condition@,
            Seq::new(if_body@.len(), |i: int| if 0 <= i < if_body@.len() { stmt_view(if_body@[i]) } else { no_stmt() }),
            Seq::new(
                elif_bodies@.len(),
                |i: int|
                    if 0 <= i < elif_bodies@.len() {
                        (
                            elif_bodies@[i].0@,
                            Seq::new(
                                elif_bodies@[i].1@.len(),
                                |j: int|
                                    if 0 <= j < elif_bodies@[i].1@.len() {
                                        stmt_view(elif_bodies@[i].1@[j])
                                    } else {
                                        no_stmt()
                                    },
                            ),
                        )
                    } else {
                        (no_expr(), Seq::empty())
                    },
            ),
            Seq::new(else_body@.len(), |i: int| if 0 <= i < else_body@.len() { stmt_view(else_body@[i]) } else { no_stmt() }),
        ),
        Statement::While { condition, body } => StmtModel::While(
            condition@,
            Seq::new(body@.len(), |i: int| if 0 <= i < body@.len() { stmt_view(body@[i]) } else { no_stmt() }),
        ),
        Statement::Foreach { item_name, iterable, body } => StmtModel::Foreach(
            item_name@,
            iterable@,
            Seq::new(body@.len(), |i: int| if 0 <= i < body@.len() { stmt_view(body@[i]) } else { no_stmt() }),
        ),
        Statement::Break => StmtModel::Break,
        Statement::Continue => StmtModel::Continue,
        Statement::Return(e) => StmtModel::Return(
            match e {
                Some(x) => Some(x@),
                None => None,
            },
        ),
        Statement::Assign { left, right } => StmtModel::Assign(left@, right@),
        Statement::VarDecl(t, n) => StmtModel::VarDecl(t@, n@),
        Statement::VarDeclWithAssign(t, n, e) => StmtModel::VarDeclWithAssign(t@, n@, e@),
        Statement::SendMessage { active, method, args } => StmtModel::SendMessage(active@, method@, exprs_view(args@)),
        Statement::Expr(e) => StmtModel::Expr(e@),
    };
    StmtPos { stmt: m, pos: s.pos as int }
}

/// A placeholder statement (outside any sequence's range).
pub open spec fn no_stmt() -> StmtPos {
    StmtPos { stmt: StmtModel::Break, pos: 0 }
}

impl View for StatementWithPos {
    type V = StmtPos;

    open spec fn view(&self) -> StmtPos {
        stmt_view(*self)
    }
}

/// The models of a sequence of statements.
pub open spec fn stmts_view(v: Seq<StatementWithPos>) -> Seq<StmtPos> {
    v.map_values(|s: StatementWithPos| s@)
}

/// The models of `elif` branches.
pub open spec fn elifs_view(v: Seq<(ExprWithPos, Vec<StatementWithPos>)>) -> Seq<(ExprPos, Seq<StmtPos>)> {
    v.map_values(|b: (ExprWithPos, Vec<StatementWithPos>)| (b.0@, stmts_view(b.1@)))
}

/// A typed name: a field or an argument.
#[derive(Debug, PartialEq)]
pub struct TypedItem {
    pub typename: ParsedType,
    pub name: String,
}

/// Typed names as plain values.
pub open spec fn items_view(v: Seq<TypedItem>) -> Seq<(TypeModel<Seq<char>>, Seq<char>)> {
    v.map_values(|t: TypedItem| (t.typename@, t.name@))
}

/// A function or method; no return type is `void`.
#[derive(Debug, PartialEq)]
pub struct FunctionDecl {
    pub pos: usize,
    pub rettype: Option<ParsedType>,
    pub name: String,
    pub args: Vec<TypedItem>,
    pub statements: Vec<StatementWithPos>,
}

/// A function as plain values.
pub ghost struct FunctionModel {
    pub pos: int,
    pub rettype: Option<TypeModel<Seq<char>>>,
    pub name: Seq<char>,
    pub args: Seq<(TypeModel<Seq<char>>, Seq<char>)>,
    pub statements: Seq<StmtPos>,
}

impl View for FunctionDecl {
    type V = FunctionModel;

    open spec fn view(&self) -> FunctionModel {
        FunctionModel {
            pos: self.pos as int,
            rettype: match self.rettype {
                Some(t) => Some(t@),
                None => None,
            },
            name: self.name@,
            args: items_view(self.args@),
            statements: stmts_view(self.statements@),
        }
    }
}

/// Functions as plain values.
pub open spec fn functions_view(v: Seq<FunctionDecl>) -> Seq<FunctionModel> {
    v.map_values(|f: FunctionDecl| f@)
}

/// A class, or an active class.
#[derive(Debug, PartialEq)]
pub struct ClassDecl {
    pub pos: usize,
    pub is_active: bool,
    pub name: String,
    pub fields: Vec<TypedItem>,
    pub methods: Vec<FunctionDecl>,
}

/// A class as plain values.
pub ghost struct ClassModel {
    pub pos: int,
    pub is_active: bool,
    pub name: Seq<char>,
    pub fields: Seq<(TypeModel<Seq<char>>, Seq<char>)>,
    pub methods: Seq<FunctionModel>,
}

impl View for ClassDecl {
    type V = ClassModel;

    open spec fn view(&self) -> ClassModel {
        ClassModel {
            pos: self.pos as int,
            is_active: self.is_active,
            name: self.name@,
            fields: items_view(self.fields@),
            methods: functions_view(self.methods@),
        }
    }
}

/// `from a.b import T, f;`
#[derive(Debug, PartialEq)]
pub struct ImportDecl {
    pub pos: usize,
    pub module: Vec<String>,
    pub typenames: Vec<String>,
    pub functions: Vec<String>,
}

/// Strings as plain values.
pub open spec fn strings_view(v: Seq<String>) -> Seq<Seq<char>> {
    v.map_values(|s: String| s@)
}

/// An import as plain values.
pub ghost struct ImportModel {
    pub pos: int,
    pub module: Seq<Seq<char>>,
    pub typenames: Seq<Seq<char>>,
    pub functions: Seq<Seq<char>>,
}

impl View for ImportDecl {
    type V = ImportModel;

    open spec fn view(&self) -> ImportModel {
        ImportModel {
            pos: self.pos as int,
            module: strings_view(self.module@),
            typenames: strings_view(self.typenames@),
            functions: strings_view(self.functions@),
        }
    }
}

/// A parsed file: its imports, functions and classes.
#[derive(Debug, PartialEq)]
pub struct FileAst {
    pub imports: Vec<ImportDecl>,
    pub functions: Vec<FunctionDecl>,
    pub types: Vec<ClassDecl>,
}

/// A file as plain values.
pub ghost struct FileModel {
    pub imports: Seq<ImportModel>,
    pub functions: Seq<FunctionModel>,
    pub types: Seq<ClassModel>,
}

impl View for FileAst {
    type V = FileModel;

    open spec fn view(&self) -> FileModel {
        FileModel {
            imports: self.imports@.map_values(|i: ImportDecl| i@),
            functions: functions_view(self.functions@),
            types: self.types@.map_values(|c: ClassDecl| c@),
        }
    }
}

} // verus!
