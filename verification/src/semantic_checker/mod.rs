//! Semantic checks: symbols, operator and expression typing, name
//! resolution and type annotation.
pub mod aggregate;
pub mod annotations;
pub mod clean_ast;
pub mod modules;
pub mod expr_text;
pub mod expressions;
pub mod operators;
pub mod real_ast;
pub mod real_type;
pub mod resolvers;
pub mod std_definitions;
pub mod symbols;
pub mod true_type;
