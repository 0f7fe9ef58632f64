//! Types of the cleaned-up program, whose user types refer to their
//! definitions.
use vstd::prelude::*;

verus! {

/// A user type with its fields.
pub struct CustomType<'a> {
    pub name: String,
    pub fields: TypedFields<'a>,
}

/// A type of the cleaned-up program.
pub enum TrueType<'a> {
    Int,
    Float,
    String,
    Nil,
    Bool,
    List(Box<TrueType<'a>>),
    Tuple(Box<TrueType<'a>>),
    Custom(&'a CustomType<'a>),
}

/// Field names with their positions, and the fields' types in order.
pub struct TypedFields<'a> {
    pub field_names: Vec<(String, usize)>,
    pub field_types: Vec<TrueType<'a>>,
}

} // verus!
