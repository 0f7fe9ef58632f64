//! Statements and expressions after resolution.
use vstd::prelude::*;

use crate::semantic_checker::real_type::RType;

verus! {

/// A statement after resolution.
pub enum RStatement {
    IfElse { condition: RExpr, ifbody: Vec<RStatement>, elsebody: Vec<RStatement> },
    While { condition: RExpr, body: Vec<RStatement> },
    Break,
    Continue,
    Return(RExpr),
    DeclareVar { ttype: RType, name: String },
    AssignVar { name: String, value: RExpr },
    Expression(RExpr),
}

/// An operation on values of one built-in type.
#[derive(Debug, Clone, Copy, PartialEq, Eq)]
pub enum Operator {
    UnaryNegateInt,
    AddInts,
    SubInts,
    MulInts,
    DivInts,
    UnaryNegateFloat,
    AddFloats,
    SubFloats,
    MulFloats,
    DivFloats,
    UnaryNegateBool,
}

/// An expression after resolution. Float literals are held as the bit
/// pattern of their IEEE-754 double value.
pub enum RExpr {
    Int(i64),
    String(String),
    Bool(bool),
    Nil,
    Float(u64),
    GetVar(String),
    ApplyOp { op: Operator, operands: Vec<RExpr> },
    CallFunction { name: String, args: Vec<RExpr> },
}

} // verus!
