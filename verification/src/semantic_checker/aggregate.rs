//! The program as one aggregate of resolved types and functions.
use vstd::prelude::*;

use crate::alias::ModuleAlias;
use crate::semantic_checker::real_ast::RStatement;
use crate::semantic_checker::real_type::{CustomType, RType, TypedFields};
use crate::semantic_checker::resolvers::{compiled_method, compiled_name};

verus! {

/// All types and functions of a program, by compiled name.
pub struct ProgramAggregate {
    pub types: Vec<(String, CustomType)>,
    pub functions: Vec<(String, RFunction)>,
}

/// A function after resolution.
pub struct RFunction {
    pub name: String,
    pub return_type: RType,
    pub args: TypedFields,
    pub body: Vec<RStatement>,
}

/// `<module>::<name>`: the name a symbol is compiled under.
pub fn compile_name(alias: &ModuleAlias, name: &String) -> (r: String)
    ensures
        r@ == compiled_name(alias@, name@),
{
    crate::semantic_checker::resolvers::compile_name(alias, name)
}

/// `<module>::<type>::<method>`: the name a method is compiled under.
pub fn compile_method(alias: &ModuleAlias, typename: &String, method: &String) -> (r: String)
    ensures
        r@ == compiled_method(alias@, typename@, method@),
{
    crate::semantic_checker::resolvers::compile_method(alias, typename, method)
}

} // verus!
