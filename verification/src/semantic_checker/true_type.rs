//! Types whose user types point at their definitions.
use vstd::prelude::*;

use crate::ast::{lemma_sem_tuple, sems_of, SemType, Type};
use crate::semantic_checker::resolvers::{compile_name, compiled_name};
use crate::semantic_checker::symbols::{find_last_named, lemma_lookup_found, lookup};

verus! {

/// A user type with its fields.
pub struct CustomType<'a> {
    pub name: String,
    pub fields: TypedFields<'a>,
}

/// A type whose user types refer to their definition.
pub enum TrueType<'a> {
    Int,
    Float,
    String,
    Bool,
    Nil,
    List(Box<TrueType<'a>>),
    Tuple(Vec<TrueType<'a>>),
    Custom(&'a CustomType<'a>),
}

/// Field names with their positions, and the fields' types in order.
pub struct TypedFields<'a> {
    pub field_names: Vec<(String, usize)>,
    pub field_types: Vec<TrueType<'a>>,
}

/// The definitions by name, as plain names.
pub open spec fn definitions_model<'a>(table: Seq<(String, CustomType<'a>)>) -> Seq<(Seq<char>, CustomType<'a>)> {
    table.map_values(|p: (String, CustomType<'a>)| (p.0@, p.1))
}

/// The definition that a user type named `name` (or, qualified by its
/// module, by its compiled name) refers to: the last one of that name.
pub open spec fn definition_of<'a>(t: SemType, table: Seq<(Seq<char>, CustomType<'a>)>) -> Option<CustomType<'a>> {
    match t {
        SemType::Ident(name) => lookup(table, name),
        SemType::IdentQualified(module, name) => lookup(table, compiled_name(module, name)),
        _ => None,
    }
}

/// `r` is the form of `t` whose user types refer to their definitions in
/// `table`: maybe-types become (flag, value) tuples.
pub open spec fn true_matches<'a>(r: TrueType<'a>, t: SemType, table: Seq<(Seq<char>, CustomType<'a>)>) -> bool
    decreases t, 1nat,
{
    match t {
        SemType::Int => r is Int,
        SemType::Float => r is Float,
        SemType::Bool => r is Bool,
        SemType::Nil => r is Nil,
        SemType::String => r is String,
        SemType::List(inner) => r matches TrueType::List(x) && true_matches(*x, *inner, table),
        SemType::Tuple(items) => r matches TrueType::Tuple(v) && true_matches_seq(v@, items, table),
        SemType::Maybe(inner) => r matches TrueType::Tuple(v) && v@.len() == 2 && v@[0] is Bool && true_matches(
            v@[1],
            *inner,
            table,
        ),
        SemType::Ident(_) => r matches TrueType::Custom(c) && definition_of(t, table) == Some(*c),
        SemType::IdentQualified(_, _) => r matches TrueType::Custom(c) && definition_of(t, table) == Some(*c),
        SemType::Anonymous => false,
    }
}

/// Each of `v` matches the type of `ts` at its position.
pub open spec fn true_matches_seq<'a>(v: Seq<TrueType<'a>>, ts: Seq<SemType>, table: Seq<(Seq<char>, CustomType<'a>)>) -> bool
    decreases ts, 0nat,
{
    v.len() == ts.len() && (ts.len() == 0 || (true_matches_seq(v.drop_last(), ts.drop_last(), table) && true_matches(
        v.last(),
        ts.last(),
        table,
    )))
}

/// Every user type named in `t` has a definition, and `t` holds no item
/// type of an empty list literal.
pub open spec fn true_defined<'a>(t: SemType, table: Seq<(Seq<char>, CustomType<'a>)>) -> bool
    decreases t, 1nat,
{
    match t {
        SemType::List(inner) => true_defined(*inner, table),
        SemType::Maybe(inner) => true_defined(*inner, table),
        SemType::Tuple(items) => true_defined_seq(items, table),
        SemType::Ident(_) => definition_of(t, table) is Some,
        SemType::IdentQualified(_, _) => definition_of(t, table) is Some,
        SemType::Anonymous => false,
        _ => true,
    }
}

pub open spec fn true_defined_seq<'a>(ts: Seq<SemType>, table: Seq<(Seq<char>, CustomType<'a>)>) -> bool
    decreases ts, 0nat,
{
    ts.len() == 0 || (true_defined_seq(ts.drop_last(), table) && true_defined(ts.last(), table))
}

proof fn lemma_defined_seq_stays<'a>(ts: Seq<SemType>, table: Seq<(Seq<char>, CustomType<'a>)>, i: int, j: int)
    requires
        0 <= i <= j <= ts.len(),
        !true_defined_seq(ts.take(i), table),
    ensures
        !true_defined_seq(ts.take(j), table),
    decreases j - i,
{
    if j > i {
        lemma_defined_seq_stays(ts, table, i, j - 1);
        assert(ts.take(j).drop_last() =~= ts.take(j - 1));
    }
}

/// The form of `source_type` whose user types refer to their definitions in
/// `definitions` (name, definition); none where a definition is missing.
pub fn type_to_true<'a>(source_type: &Type, definitions: &'a Vec<(String, CustomType<'a>)>) -> (r: Option<TrueType<'a>>)
    ensures
        r is Some <==> true_defined(source_type@, definitions_model(definitions@)),
        r matches Some(x) ==> true_matches(x, source_type@, definitions_model(definitions@)),
    decreases source_type,
{
    match source_type {
        Type::Int => Some(TrueType::Int),
        Type::Float => Some(TrueType::Float),
        Type::Bool => Some(TrueType::Bool),
        Type::Nil => Some(TrueType::Nil),
        Type::String => Some(TrueType::String),
        Type::List(inner) => match type_to_true(inner, definitions) {
            Some(r) => Some(TrueType::List(Box::new(r))),
            None => None,
        },
        Type::Tuple(items) => {
            proof {
                lemma_sem_tuple(*items);
            }
            let ghost ts = sems_of(items@);
            let ghost table = definitions_model(definitions@);
            let mut out: Vec<TrueType<'a>> = Vec::new();
            let mut i: usize = 0;
            assert(ts.take(0) =~= Seq::<SemType>::empty());
            while i < items.len()
                invariant
                    i <= items@.len(),
                    *source_type == Type::Tuple(*items),
                    source_type@ == SemType::Tuple(ts),
                    ts == sems_of(items@),
                    table == definitions_model(definitions@),
                    true_defined_seq(ts.take(i as int), table),
                    true_matches_seq(out@, ts.take(i as int), table),
                decreases items@.len() - i,
            {
                proof {
                    assert(ts.take(i + 1).drop_last() =~= ts.take(i as int));
                    assert(ts.take(i + 1).last() == items@[i as int]@);
                    assert(ts.take(ts.len() as int) =~= ts);
                }
                match type_to_true(&items[i], definitions) {
                    Some(r) => {
                        let ghost before = out@;
                        out.push(r);
                        assert(out@.drop_last() =~= before);
                    },
                    None => {
                        proof {
                            lemma_defined_seq_stays(ts, table, i + 1, ts.len() as int);
                        }
                        return None;
                    },
                }
                i = i + 1;
            }
            assert(ts.take(ts.len() as int) =~= ts);
            Some(TrueType::Tuple(out))
        },
        Type::Maybe(inner) => match type_to_true(inner, definitions) {
            Some(r) => {
                let mut items: Vec<TrueType<'a>> = Vec::new();
                items.push(TrueType::Bool);
                items.push(r);
                Some(TrueType::Tuple(items))
            },
            None => None,
        },
        Type::Ident(name) => find_definition(name, definitions),
        Type::IdentQualified(module, name) => {
            let full = compile_name(module, name);
            find_definition(&full, definitions)
        },
        Type::Anonymous => None,
    }
}

/// The user type that refers to the last definition named `name`.
fn find_definition<'a>(name: &String, definitions: &'a Vec<(String, CustomType<'a>)>) -> (r: Option<TrueType<'a>>)
    ensures
        match lookup(definitions_model(definitions@), name@) {
            Some(c) => r matches Some(x) && x matches TrueType::Custom(d) && *d == c,
            None => r is None,
        },
{
    let found = find_last_named(definitions, name.as_str());
    proof {
        let m = definitions_model(definitions@);
        assert forall|j: int| 0 <= j < m.len() implies (#[trigger] m[j]) == (
            definitions@[j].0@,
            definitions@[j].1,
        ) by {}
        lemma_lookup_found(m, name@, found);
    }
    match found {
        Some(k) => Some(TrueType::Custom(&definitions[k].1)),
        None => None,
    }
}

} // verus!
