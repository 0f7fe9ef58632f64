//! Types as the later compilation stages see them: maybe-types become
//! (flag, value) tuples and user types are known by their compiled name.
use vstd::prelude::*;

use crate::ast::{lemma_sem_tuple, sems_of, SemType, Type};
use crate::semantic_checker::resolvers::{compile_name, compiled_name};
use crate::semantic_checker::symbols::{find_last_named, lemma_lookup_found, lookup};

verus! {

/// A type after resolution.
#[derive(Debug, PartialEq)]
pub enum RType {
    Int,
    Float,
    String,
    Bool,
    Nil,
    List(Box<RType>),
    Tuple(Vec<RType>),
    Custom(String),
}

/// The mathematical value of an `RType`.
pub ghost enum RModel {
    Int,
    Float,
    String,
    Bool,
    Nil,
    List(Box<RModel>),
    Tuple(Seq<RModel>),
    Custom(Seq<char>),
}

pub open spec fn rmodel_of(t: RType) -> RModel
    decreases t,
{
    match t {
        RType::Int => RModel::Int,
        RType::Float => RModel::Float,
        RType::String => RModel::String,
        RType::Bool => RModel::Bool,
        RType::Nil => RModel::Nil,
        RType::List(inner) => RModel::List(Box::new(rmodel_of(*inner))),
        RType::Tuple(items) => RModel::Tuple(
            Seq::new(
                items@.len(),
                |i: int|
                    if 0 <= i < items@.len() {
                        rmodel_of(items@[i])
                    } else {
                        RModel::Nil
                    },
            ),
        ),
        RType::Custom(name) => RModel::Custom(name@),
    }
}

impl View for RType {
    type V = RModel;

    open spec fn view(&self) -> RModel {
        rmodel_of(*self)
    }
}

/// Models of a sequence of types.
pub open spec fn rmodels_of(s: Seq<RType>) -> Seq<RModel> {
    Seq::new(s.len(), |i: int| s[i]@)
}

proof fn lemma_rmodel_tuple(items: Vec<RType>)
    ensures
        rmodel_of(RType::Tuple(items)) == RModel::Tuple(rmodels_of(items@)),
{
    let m = rmodel_of(RType::Tuple(items));
    if let RModel::Tuple(s) = m {
        assert(s =~= rmodels_of(items@));
    }
}

/// A name-to-target table as plain values.
pub open spec fn table_model(table: Seq<(String, String)>) -> Seq<(Seq<char>, Seq<char>)> {
    table.map_values(|p: (String, String)| (p.0@, p.1@))
}

/// The resolved form of `t`, with the user types named in it looked up in
/// `table` (the last entry of a name counts); types qualified by their
/// module take their compiled name. None where a name is missing from the
/// table, or for the item type of an empty list literal.
pub open spec fn real_of(t: SemType, table: Seq<(Seq<char>, Seq<char>)>) -> Option<RModel>
    decreases t, 1nat,
{
    match t {
        SemType::Int => Some(RModel::Int),
        SemType::Float => Some(RModel::Float),
        SemType::Bool => Some(RModel::Bool),
        SemType::Nil => Some(RModel::Nil),
        SemType::String => Some(RModel::String),
        SemType::List(inner) => match real_of(*inner, table) {
            Some(r) => Some(RModel::List(Box::new(r))),
            None => None,
        },
        SemType::Tuple(items) => match real_of_seq(items, table) {
            Some(rs) => Some(RModel::Tuple(rs)),
            None => None,
        },
        SemType::Maybe(inner) => match real_of(*inner, table) {
            Some(r) => Some(RModel::Tuple(seq![RModel::Bool, r])),
            None => None,
        },
        SemType::Ident(name) => match lookup(table, name) {
            Some(target) => Some(RModel::Custom(target)),
            None => None,
        },
        SemType::IdentQualified(module, name) => Some(RModel::Custom(compiled_name(module, name))),
        SemType::Anonymous => None,
    }
}

/// The resolved forms of `ts`, in order; none if one of them has none.
pub open spec fn real_of_seq(ts: Seq<SemType>, table: Seq<(Seq<char>, Seq<char>)>) -> Option<Seq<RModel>>
    decreases ts, 0nat,
{
    if ts.len() == 0 {
        Some(Seq::empty())
    } else {
        match real_of_seq(ts.drop_last(), table) {
            Some(rs) => match real_of(ts.last(), table) {
                Some(r) => Some(rs.push(r)),
                None => None,
            },
            None => None,
        }
    }
}

proof fn lemma_real_of_seq_stays(ts: Seq<SemType>, table: Seq<(Seq<char>, Seq<char>)>, i: int, j: int)
    requires
        0 <= i <= j <= ts.len(),
        real_of_seq(ts.take(i), table) is None,
    ensures
        real_of_seq(ts.take(j), table) is None,
    decreases j - i,
{
    if j > i {
        lemma_real_of_seq_stays(ts, table, i, j - 1);
        assert(ts.take(j).drop_last() =~= ts.take(j - 1));
    }
}

/// The resolved form of `source_type`, user types looked up in `resolver`
/// (name, target) (see `real_of`).
pub fn type_to_real(source_type: &Type, resolver: &Vec<(String, String)>) -> (r: Option<RType>)
    ensures
        match real_of(source_type@, table_model(resolver@)) {
            Some(m) => r matches Some(x) && x@ == m,
            None => r is None,
        },
    decreases source_type,
{
    match source_type {
        Type::Int => Some(RType::Int),
        Type::Float => Some(RType::Float),
        Type::Bool => Some(RType::Bool),
        Type::Nil => Some(RType::Nil),
        Type::String => Some(RType::String),
        Type::List(inner) => match type_to_real(inner, resolver) {
            Some(r) => Some(RType::List(Box::new(r))),
            None => None,
        },
        Type::Tuple(items) => {
            proof {
                lemma_sem_tuple(*items);
            }
            let ghost ts = sems_of(items@);
            let ghost table = table_model(resolver@);
            let mut out: Vec<RType> = Vec::new();
            let mut i: usize = 0;
            assert(ts.take(0) =~= Seq::<SemType>::empty());
            assert(rmodels_of(out@) =~= Seq::<RModel>::empty());
            while i < items.len()
                invariant
                    i <= items@.len(),
                    *source_type == Type::Tuple(*items),
                    source_type@ == SemType::Tuple(ts),
                    ts == sems_of(items@),
                    table == table_model(resolver@),
                    real_of_seq(ts.take(i as int), table) == Some(rmodels_of(out@)),
                decreases items@.len() - i,
            {
                proof {
                    assert(ts.take(i + 1).drop_last() =~= ts.take(i as int));
                    assert(ts.take(i + 1).last() == items@[i as int]@);
                    assert(ts.take(ts.len() as int) =~= ts);
                }
                match type_to_real(&items[i], resolver) {
                    Some(r) => {
                        let ghost before = out@;
                        out.push(r);
                        assert(rmodels_of(out@) =~= rmodels_of(before).push(r@));
                    },
                    None => {
                        proof {
                            lemma_real_of_seq_stays(ts, table, i + 1, ts.len() as int);
                        }
                        return None;
                    },
                }
                i = i + 1;
            }
            assert(ts.take(ts.len() as int) =~= ts);
            proof {
                lemma_rmodel_tuple(out);
            }
            Some(RType::Tuple(out))
        },
        Type::Maybe(inner) => match type_to_real(inner, resolver) {
            Some(r) => {
                let mut items: Vec<RType> = Vec::new();
                items.push(RType::Bool);
                items.push(r);
                proof {
                    lemma_rmodel_tuple(items);
                    assert(rmodels_of(items@) =~= seq![RModel::Bool, r@]);
                }
                Some(RType::Tuple(items))
            },
            None => None,
        },
        Type::Ident(name) => {
            let found = find_last_named(resolver, name.as_str());
            proof {
                let m = table_model(resolver@);
                assert forall|j: int| 0 <= j < m.len() implies (#[trigger] m[j]) == (
                    resolver@[j].0@,
                    resolver@[j].1@,
                ) by {}
                lemma_lookup_found(m, name@, found);
            }
            match found {
                Some(k) => Some(RType::Custom(resolver[k].1.clone())),
                None => None,
            }
        },
        Type::IdentQualified(module, name) => Some(RType::Custom(compile_name(module, name))),
        Type::Anonymous => None,
    }
}

/// Field (or argument) names with their positions, and their resolved types
/// in order.
#[derive(Debug)]
pub struct TypedFields {
    pub names: Vec<(String, usize)>,
    pub types: Vec<RType>,
}

/// A user type after resolution: its compiled name and its fields.
#[derive(Debug)]
pub struct CustomType {
    pub name: String,
    pub fields: TypedFields,
}

/// The names of `v` paired with their positions.
pub open spec fn positions_model(v: Seq<(Seq<char>, SemType)>) -> Seq<(Seq<char>, int)> {
    Seq::new(v.len(), |i: int| (v[i].0, i))
}

/// The typed fields of the named types `v`, with user types resolved
/// through `resolver`; none if one of the types has no resolved form.
pub fn type_vec_to_typed_fields(v: &Vec<(String, Type)>, resolver: &Vec<(String, String)>) -> (r: Option<TypedFields>)
    ensures
        match real_of_seq(crate::semantic_checker::symbols::named_types(v@).map_values(|p: (Seq<char>, SemType)| p.1), table_model(resolver@)) {
            Some(rs) => r matches Some(f) && rmodels_of(f.types@) == rs && f.names@.map_values(
                |p: (String, usize)| (p.0@, p.1 as int),
            ) == positions_model(crate::semantic_checker::symbols::named_types(v@)),
            None => r is None,
        },
{
    let ghost nt = crate::semantic_checker::symbols::named_types(v@);
    let ghost ts = nt.map_values(|p: (Seq<char>, SemType)| p.1);
    let ghost table = table_model(resolver@);
    let mut fields = TypedFields { names: Vec::new(), types: Vec::new() };
    let mut i: usize = 0;
    assert(ts.take(0) =~= Seq::<SemType>::empty());
    assert(rmodels_of(fields.types@) =~= Seq::<RModel>::empty());
    while i < v.len()
        invariant
            i <= v@.len(),
            nt == crate::semantic_checker::symbols::named_types(v@),
            ts == nt.map_values(|p: (Seq<char>, SemType)| p.1),
            table == table_model(resolver@),
            real_of_seq(ts.take(i as int), table) == Some(rmodels_of(fields.types@)),
            fields.names@.map_values(|p: (String, usize)| (p.0@, p.1 as int)) == positions_model(nt).take(i as int),
        decreases v@.len() - i,
    {
        proof {
            assert(ts.take(i + 1).drop_last() =~= ts.take(i as int));
            assert(ts.take(i + 1).last() == v@[i as int].1@);
            assert(ts.take(ts.len() as int) =~= ts);
        }
        match type_to_real(&v[i].1, resolver) {
            Some(r) => {
                let ghost before_types = fields.types@;
                let ghost before_names = fields.names@;
                fields.names.push((v[i].0.clone(), i));
                fields.types.push(r);
                proof {
                    assert(rmodels_of(fields.types@) =~= rmodels_of(before_types).push(r@));
                    assert(positions_model(nt).take(i + 1) =~= positions_model(nt).take(i as int).push((v@[i as int].0@, i as int)));
                    assert(fields.names@.map_values(|p: (String, usize)| (p.0@, p.1 as int)) =~= before_names.map_values(
                        |p: (String, usize)| (p.0@, p.1 as int),
                    ).push((v@[i as int].0@, i as int)));
                }
            },
            None => {
                proof {
                    lemma_real_of_seq_stays(ts, table, i + 1, ts.len() as int);
                }
                return None;
            },
        }
        i = i + 1;
    }
    assert(ts.take(ts.len() as int) =~= ts);
    assert(positions_model(nt).take(nt.len() as int) =~= positions_model(nt));
    Some(fields)
}

} // verus!
