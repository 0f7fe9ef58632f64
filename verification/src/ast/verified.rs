//! The verified intermediate representation: resolved types, functions and
//! typed statements/expressions that code generation consumes.
use vstd::prelude::*;

use crate::alias::ModuleAlias;
use crate::symbols::{SymbolFunc, SymbolType};
use crate::types::{models_of, TypeModel, VerifiedType};

verus! {

/// A user type (class or active object) with its fields.
#[derive(Debug)]
pub struct CustomType {
    pub name: SymbolType,
    pub is_active: bool,
    pub fields: TypedFields,
}

/// A function or method after semantic analysis.
#[derive(Debug)]
pub struct RawFunction {
    pub name: SymbolFunc,
    pub return_type: VerifiedType,
    pub args: TypedFields,
    pub body: Vec<VStatement>,
    pub locals: Vec<(String, VerifiedType)>,
    pub short_name: String,
    pub method_of: Option<SymbolType>,
    pub is_constructor: bool,
    pub defined_at: ModuleAlias,
}

/// Ordered named fields (function arguments and class fields): `names[i]`
/// is the name of the item whose type is `types[i]`.
#[derive(Debug)]
pub struct TypedFields {
    pub types: Vec<VerifiedType>,
    pub names: Vec<String>,
}

impl TypedFields {
    /// Every type has a name.
    pub open spec fn wf(&self) -> bool {
        self.names@.len() == self.types@.len()
    }

    /// Models of the field types, in order.
    pub open spec fn type_models(&self) -> Seq<TypeModel<(Seq<char>, Seq<char>)>> {
        models_of(self.types@)
    }

    /// Field names, in order.
    pub open spec fn name_texts(&self) -> Seq<Seq<char>> {
        self.names@.map_values(|n: String| n@)
    }

    /// The `(name, type)` pairs in order.
    pub fn iter(&self) -> (r: Vec<(&String, &VerifiedType)>)
        requires
            self.wf(),
        ensures
            r@.len() == self.types@.len(),
            forall|i: int|
                0 <= i < r@.len() ==> (#[trigger] r@[i]).0 == self.names@[i] && r@[i].1 == self.types@[i],
    {
        let mut r: Vec<(&String, &VerifiedType)> = Vec::new();
        let mut i: usize = 0;
        while i < self.types.len()
            invariant
                self.wf(),
                i <= self.types@.len(),
                r@.len() == i,
                forall|j: int|
                    0 <= j < i ==> (#[trigger] r@[j]).0 == self.names@[j] && r@[j].1 == self.types@[j],
            decreases self.types@.len() - i,
        {
            r.push((&self.names[i], &self.types[i]));
            i = i + 1;
        }
        r
    }
}

/// A statement of the intermediate representation.
#[derive(Debug)]
pub enum VStatement {
    IfElse { condition: VExprTyped, if_body: Vec<VStatement>, else_body: Vec<VStatement> },
    While { condition: VExprTyped, body: Vec<VStatement> },
    Break,
    Continue,
    Return(VExprTyped),
    /// Assignment to a local variable; `tuple_indexes` selects a tuple item.
    AssignLocal { name: String, tuple_indexes: Vec<usize>, value: VExprTyped },
    /// Assignment to a field of a heap object.
    AssignToField { object: VExprTyped, field: String, tuple_indexes: Vec<usize>, value: VExprTyped },
    /// Assignment to a list item.
    AssignToList {
        list: VExprTyped,
        index: VExprTyped,
        tuple_indexes: Vec<usize>,
        value: VExprTyped,
    },
    /// Assignment to a field of the active object running the code.
    AssignToCurrentActiveField {
        active_type: SymbolType,
        field: String,
        value: VExprTyped,
        tuple_indexes: Vec<usize>,
    },
    /// Asynchronous message to an active object.
    SendMessage { active: VExprTyped, receiver: SymbolFunc, args: Vec<VExprTyped> },
    Expression(VExprTyped),
}

/// Primitive operations on values.
#[derive(Debug, PartialEq, Eq, Clone, Copy)]
pub enum RawOperator {
    UnaryNegateInt,
    AddInts,
    SubInts,
    MulInts,
    DivInts,
    GreaterInts,
    LessInts,
    EqualInts,
    UnaryNegateFloat,
    AddFloats,
    SubFloats,
    MulFloats,
    DivFloats,
    GreaterFloats,
    LessFloats,
    EqualFloats,
    UnaryNegateBool,
    EqualBools,
    AndBools,
    OrBools,
    EqualStrings,
    AddStrings,
}

/// An expression together with its type.
#[derive(Debug)]
pub struct VExprTyped {
    pub expr: VExpr,
    pub expr_type: VerifiedType,
}

/// An expression of the intermediate representation. Float literals are
/// held as the bit pattern of their IEEE-754 double value.
#[derive(Debug)]
pub enum VExpr {
    Int(i64),
    String(String),
    Bool(bool),
    Float(u64),
    /// A placeholder value of the given type (used for empty maybe-values).
    Dummy(VerifiedType),
    CompareMaybe { left: Box<VExprTyped>, right: Box<VExprTyped>, eq_op: RawOperator },
    GetVar(String),
    AccessTupleItem { tuple: Box<VExprTyped>, index: usize },
    TupleValue(Vec<VExprTyped>),
    ListValue { item_type: VerifiedType, items: Vec<VExprTyped> },
    ApplyOp { operator: RawOperator, operands: Vec<VExprTyped> },
    TernaryOp { condition: Box<VExprTyped>, if_true: Box<VExprTyped>, if_false: Box<VExprTyped> },
    CallFunction { name: SymbolFunc, return_type: VerifiedType, args: Vec<VExprTyped> },
    AccessField { object: Box<VExprTyped>, field: String },
    AccessListItem { list: Box<VExprTyped>, index: Box<VExprTyped> },
    Allocate { typename: SymbolType },
    Spawn { typename: SymbolType, args: Vec<VExprTyped> },
    CurrentActive,
    CurrentActiveField { active_type: SymbolType, field: String },
}

} // verus!
