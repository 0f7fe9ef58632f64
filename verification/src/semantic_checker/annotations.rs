//! Annotation of types: user types named in a file become qualified by the
//! module that defines them.
use vstd::prelude::*;

use crate::ast::{lemma_sem_tuple, sems_of, SemType, Type};
use crate::ast::parsed::{items_view, ClassDecl, FunctionDecl, FunctionModel, TypedItem};
use crate::semantic_checker::symbols::{
    find_last_named, lemma_lookup_found, lookup, named_types, ClassSignature, FunctionSignature, OriginModel,
    SignatureModel, SymbolOrigin,
};
use crate::types::{depth, depth_seq, lemma_depth_seq_bound, lemma_model_tuple, models_of, ParsedType, TypeModel};
use crate::text::{chars_of, extend_chars, string_from_chars};

verus! {

/// What annotating a type gives: the annotated type, an error message, or
/// a type that annotation does not expect (the item type of an empty list
/// literal).
pub ghost enum Annotation<T> {
    Done(T),
    Failed(Seq<char>),
    Unexpected,
}

/// The origins of the type names of a file, as plain values.
pub open spec fn origins_mapping_model(mapping: Seq<(String, SymbolOrigin)>) -> Seq<(Seq<char>, OriginModel)> {
    mapping.map_values(|p: (String, SymbolOrigin)| (p.0@, p.1@))
}

/// `t` with each user type name replaced by its origin in `mapping`; the
/// first (in order) name without an origin is an error.
pub open spec fn annotated(t: SemType, mapping: Seq<(Seq<char>, OriginModel)>) -> Annotation<SemType>
    decreases t, 1nat,
{
    match t {
        SemType::List(inner) => match annotated(*inner, mapping) {
            Annotation::Done(a) => Annotation::Done(SemType::List(Box::new(a))),
            Annotation::Failed(e) => Annotation::Failed(e),
            Annotation::Unexpected => Annotation::Unexpected,
        },
        SemType::Maybe(inner) => match annotated(*inner, mapping) {
            Annotation::Done(a) => Annotation::Done(SemType::Maybe(Box::new(a))),
            Annotation::Failed(e) => Annotation::Failed(e),
            Annotation::Unexpected => Annotation::Unexpected,
        },
        SemType::Tuple(items) => match annotated_seq(items, mapping) {
            Annotation::Done(v) => Annotation::Done(SemType::Tuple(v)),
            Annotation::Failed(e) => Annotation::Failed(e),
            Annotation::Unexpected => Annotation::Unexpected,
        },
        SemType::Ident(name) => match lookup(mapping, name) {
            Some(origin) => Annotation::Done(SemType::IdentQualified(origin.0, origin.1)),
            None => Annotation::Failed("Unknown type "@ + name),
        },
        SemType::Anonymous => Annotation::Unexpected,
        _ => Annotation::Done(t),
    }
}

/// The annotations of `ts`, in order, up to the first that is not done.
pub open spec fn annotated_seq(ts: Seq<SemType>, mapping: Seq<(Seq<char>, OriginModel)>) -> Annotation<Seq<SemType>>
    decreases ts, 0nat,
{
    if ts.len() == 0 {
        Annotation::Done(Seq::empty())
    } else {
        match annotated_seq(ts.drop_last(), mapping) {
            Annotation::Done(v) => match annotated(ts.last(), mapping) {
                Annotation::Done(a) => Annotation::Done(v.push(a)),
                Annotation::Failed(e) => Annotation::Failed(e),
                Annotation::Unexpected => Annotation::Unexpected,
            },
            other => other,
        }
    }
}

proof fn lemma_annotated_seq_stays(ts: Seq<SemType>, mapping: Seq<(Seq<char>, OriginModel)>, i: int, j: int)
    requires
        0 <= i <= j <= ts.len(),
        !(annotated_seq(ts.take(i), mapping) is Done),
    ensures
        annotated_seq(ts.take(j), mapping) == annotated_seq(ts.take(i), mapping),
    decreases j - i,
{
    if j > i {
        lemma_annotated_seq_stays(ts, mapping, i, j - 1);
        assert(ts.take(j).drop_last() =~= ts.take(j - 1));
    }
}

/// `t` with each user type name qualified by the module that defines it,
/// as `typenames_mapping` (name, origin) gives it; an unknown name is an
/// error.
pub fn annotate_type(t: &Type, typenames_mapping: &Vec<(String, SymbolOrigin)>) -> (r: Result<Type, String>)
    requires
        annotated(t@, origins_mapping_model(typenames_mapping@)) != Annotation::<SemType>::Unexpected,
    ensures
        match annotated(t@, origins_mapping_model(typenames_mapping@)) {
            Annotation::Done(a) => r matches Ok(x) && x@ == a,
            Annotation::Failed(e) => r matches Err(x) && x@ == e,
            Annotation::Unexpected => false,
        },
    decreases t,
{
    match t {
        Type::Int => Ok(Type::Int),
        Type::Float => Ok(Type::Float),
        Type::Nil => Ok(Type::Nil),
        Type::Bool => Ok(Type::Bool),
        Type::String => Ok(Type::String),
        Type::List(inner) => match annotate_type(inner, typenames_mapping) {
            Ok(a) => Ok(Type::List(Box::new(a))),
            Err(e) => Err(e),
        },
        Type::Maybe(inner) => match annotate_type(inner, typenames_mapping) {
            Ok(a) => Ok(Type::Maybe(Box::new(a))),
            Err(e) => Err(e),
        },
        Type::Tuple(items) => {
            proof {
                lemma_sem_tuple(*items);
            }
            let ghost ts = sems_of(items@);
            let ghost mapping = origins_mapping_model(typenames_mapping@);
            let mut out: Vec<Type> = Vec::new();
            let mut i: usize = 0;
            assert(ts.take(0) =~= Seq::<SemType>::empty());
            assert(sems_of(out@) =~= Seq::<SemType>::empty());
            while i < items.len()
                invariant
                    i <= items@.len(),
                    *t == Type::Tuple(*items),
                    t@ == SemType::Tuple(ts),
                    ts == sems_of(items@),
                    mapping == origins_mapping_model(typenames_mapping@),
                    annotated(t@, mapping) != Annotation::<SemType>::Unexpected,
                    annotated_seq(ts.take(i as int), mapping) == Annotation::Done(sems_of(out@)),
                decreases items@.len() - i,
            {
                proof {
                    assert(ts.take(i + 1).drop_last() =~= ts.take(i as int));
                    assert(ts.take(i + 1).last() == items@[i as int]@);
                    assert(ts.take(ts.len() as int) =~= ts);
                    if annotated(items@[i as int]@, mapping) == Annotation::<SemType>::Unexpected {
                        lemma_annotated_seq_stays(ts, mapping, i + 1, ts.len() as int);
                    }
                }
                match annotate_type(&items[i], typenames_mapping) {
                    Ok(a) => {
                        let ghost before = out@;
                        out.push(a);
                        assert(sems_of(out@) =~= sems_of(before).push(a@));
                    },
                    Err(e) => {
                        proof {
                            lemma_annotated_seq_stays(ts, mapping, i + 1, ts.len() as int);
                        }
                        return Err(e);
                    },
                }
                i = i + 1;
            }
            assert(ts.take(ts.len() as int) =~= ts);
            proof {
                lemma_sem_tuple(out);
            }
            Ok(Type::Tuple(out))
        },
        Type::Ident(name) => {
            let found = find_last_named(typenames_mapping, name.as_str());
            proof {
                let m = origins_mapping_model(typenames_mapping@);
                assert forall|j: int| 0 <= j < m.len() implies (#[trigger] m[j]) == (
                    typenames_mapping@[j].0@,
                    typenames_mapping@[j].1@,
                ) by {}
                lemma_lookup_found(m, name@, found);
            }
            match found {
                Some(k) => {
                    let origin = &typenames_mapping[k].1;
                    Ok(Type::IdentQualified(origin.module.clone_alias(), origin.name.clone()))
                },
                None => {
                    let mut m = chars_of("Unknown type ");
                    let n = chars_of(name.as_str());
                    extend_chars(&mut m, n.as_slice());
                    Err(string_from_chars(m.as_slice()))
                },
            }
        },
        Type::IdentQualified(module, name) => Ok(Type::IdentQualified(module.clone_alias(), name.clone())),
        Type::Anonymous => Err(String::new()),
    }
}

} // verus!

verus! {

/// Annotating a type that annotation produced changes nothing, with any
/// mapping: its user types are all qualified already.
pub proof fn law_annotation_is_idempotent(
    t: SemType,
    mapping: Seq<(Seq<char>, OriginModel)>,
    other: Seq<(Seq<char>, OriginModel)>,
)
    requires
        annotated(t, mapping) is Done,
    ensures
        annotated(annotated(t, mapping)->Done_0, other) == annotated(t, mapping),
    decreases t, 1nat,
{
    match t {
        SemType::List(inner) => {
            law_annotation_is_idempotent(*inner, mapping, other);
        },
        SemType::Maybe(inner) => {
            law_annotation_is_idempotent(*inner, mapping, other);
        },
        SemType::Tuple(items) => {
            lemma_annotated_seq_idempotent(items, mapping, other);
        },
        _ => {},
    }
}

proof fn lemma_annotated_seq_idempotent(
    ts: Seq<SemType>,
    mapping: Seq<(Seq<char>, OriginModel)>,
    other: Seq<(Seq<char>, OriginModel)>,
)
    requires
        annotated_seq(ts, mapping) is Done,
    ensures
        annotated_seq(annotated_seq(ts, mapping)->Done_0, other) == annotated_seq(ts, mapping),
    decreases ts, 0nat,
{
    if ts.len() > 0 {
        lemma_annotated_seq_idempotent(ts.drop_last(), mapping, other);
        law_annotation_is_idempotent(ts.last(), mapping, other);
        let v = annotated_seq(ts, mapping)->Done_0;
        let prev = annotated_seq(ts.drop_last(), mapping)->Done_0;
        let a = annotated(ts.last(), mapping)->Done_0;
        assert(v == prev.push(a));
        assert(v.drop_last() =~= prev);
        assert(v.last() == a);
    }
}

/// A type as written in the source, as a semantic type: user types by
/// their plain name.
pub open spec fn sem_of_parsed(t: TypeModel<Seq<char>>) -> SemType
    decreases t,
{
    match t {
        TypeModel::Int => SemType::Int,
        TypeModel::Float => SemType::Float,
        TypeModel::Bool => SemType::Bool,
        TypeModel::String => SemType::String,
        TypeModel::Maybe(inner) => SemType::Maybe(Box::new(sem_of_parsed(*inner))),
        TypeModel::List(inner) => SemType::List(Box::new(sem_of_parsed(*inner))),
        TypeModel::Tuple(ts) => SemType::Tuple(
            Seq::new(ts.len(), |i: int| if 0 <= i < ts.len() { sem_of_parsed(ts[i]) } else { SemType::Int }),
        ),
        TypeModel::Custom(name) => SemType::Ident(name),
    }
}

proof fn lemma_annotated_seq_expected(ts: Seq<SemType>, mapping: Seq<(Seq<char>, OriginModel)>)
    requires
        forall|i: int| 0 <= i < ts.len() ==> annotated(#[trigger] ts[i], mapping) != Annotation::<SemType>::Unexpected,
    ensures
        annotated_seq(ts, mapping) != Annotation::<Seq<SemType>>::Unexpected,
    decreases ts.len(),
{
    if ts.len() > 0 {
        lemma_annotated_seq_expected(ts.drop_last(), mapping);
        assert(annotated(ts[ts.len() - 1], mapping) != Annotation::<SemType>::Unexpected);
    }
}

/// A type written in the source is always one that annotation expects.
proof fn lemma_parsed_expected(t: TypeModel<Seq<char>>, mapping: Seq<(Seq<char>, OriginModel)>)
    ensures
        annotated(sem_of_parsed(t), mapping) != Annotation::<SemType>::Unexpected,
    decreases t,
{
    match t {
        TypeModel::Maybe(inner) => {
            reveal_with_fuel(annotated, 2);
            lemma_parsed_expected(*inner, mapping);
            assert(sem_of_parsed(t) == SemType::Maybe(Box::new(sem_of_parsed(*inner))));
        },
        TypeModel::List(inner) => {
            reveal_with_fuel(annotated, 2);
            lemma_parsed_expected(*inner, mapping);
            assert(sem_of_parsed(t) == SemType::List(Box::new(sem_of_parsed(*inner))));
        },
        TypeModel::Tuple(ts) => {
            let sems = sem_of_parsed(t)->Tuple_0;
            assert(sems.len() == ts.len());
            assert forall|i: int| 0 <= i < sems.len() implies annotated(#[trigger] sems[i], mapping)
                != Annotation::<SemType>::Unexpected by {
                assert(sems[i] == sem_of_parsed(ts[i]));
                lemma_parsed_expected(ts[i], mapping);
            }
            lemma_annotated_seq_expected(sems, mapping);
        },
        _ => {},
    }
}

/// A type as written in the source, as a semantic type.
pub fn sem_type_of(t: &ParsedType) -> (r: Type)
    ensures
        r@ == sem_of_parsed(t@),
    decreases depth(t@),
{
    match t {
        ParsedType::Int => Type::Int,
        ParsedType::Float => Type::Float,
        ParsedType::Bool => Type::Bool,
        ParsedType::String => Type::String,
        ParsedType::Maybe(inner) => {
            let x = sem_type_of(&**inner);
            Type::Maybe(Box::new(x))
        },
        ParsedType::List(inner) => {
            let x = sem_type_of(&**inner);
            Type::List(Box::new(x))
        },
        ParsedType::Custom(name) => Type::Ident(name.clone()),
        ParsedType::Tuple(items) => {
            proof {
                lemma_model_tuple(*items);
            }
            let ghost want = Seq::new(items@.len(), |i: int| sem_of_parsed(items@[i]@));
            let mut out: Vec<Type> = Vec::new();
            let mut i: usize = 0;
            while i < items.len()
                invariant
                    i <= items@.len(),
                    want == Seq::new(items@.len(), |i: int| sem_of_parsed(items@[i]@)),
                    out@.len() == i,
                    forall|j: int| 0 <= j < i ==> #[trigger] out@[j]@ == want[j],
                    depth(t@) == depth_seq(models_of(items@)) + 1,
                decreases items@.len() - i,
            {
                proof {
                    lemma_depth_seq_bound(models_of(items@), i as int);
                }
                let x = sem_type_of(&items[i]);
                out.push(x);
                i = i + 1;
            }
            proof {
                lemma_sem_tuple(out);
                assert(sems_of(out@) =~= want);
                let ts = models_of(items@);
                assert(*t == ParsedType::Tuple(*items));
                assert(t@ == TypeModel::<Seq<char>>::Tuple(ts));
                let sems = sem_of_parsed(t@)->Tuple_0;
                assert(sems.len() == want.len());
                assert forall|k: int| 0 <= k < sems.len() implies sems[k] == want[k] by {
                    assert(sems[k] == sem_of_parsed(ts[k]));
                }
                assert(sems =~= want);
            }
            Type::Tuple(out)
        },
    }
}

/// The annotation of a type written in the source: the annotated type, or
/// the error.
pub open spec fn annotation_of(t: TypeModel<Seq<char>>, mapping: Seq<(Seq<char>, OriginModel)>) -> Result<SemType, Seq<char>> {
    match annotated(sem_of_parsed(t), mapping) {
        Annotation::Done(a) => Ok(a),
        Annotation::Failed(e) => Err(e),
        Annotation::Unexpected => Err(Seq::empty()),
    }
}

/// `t`, written in the source, annotated.
fn annotate_parsed(t: &ParsedType, mapping: &Vec<(String, SymbolOrigin)>) -> (r: Result<Type, String>)
    ensures
        match annotation_of(t@, origins_mapping_model(mapping@)) {
            Ok(a) => r matches Ok(x) && x@ == a,
            Err(e) => r matches Err(x) && x@ == e,
        },
{
    let s = sem_type_of(t);
    proof {
        lemma_parsed_expected(t@, origins_mapping_model(mapping@));
    }
    annotate_type(&s, mapping)
}

/// Named types written in the source, annotated in order; the first error.
pub open spec fn annotated_items(items: Seq<(TypeModel<Seq<char>>, Seq<char>)>, mapping: Seq<(Seq<char>, OriginModel)>) -> Result<Seq<(Seq<char>, SemType)>, Seq<char>>
    decreases items.len(),
{
    if items.len() == 0 {
        Ok(Seq::empty())
    } else {
        match annotated_items(items.drop_last(), mapping) {
            Ok(v) => match annotation_of(items.last().0, mapping) {
                Ok(a) => Ok(v.push((items.last().1, a))),
                Err(e) => Err(e),
            },
            Err(e) => Err(e),
        }
    }
}

proof fn lemma_items_stay(items: Seq<(TypeModel<Seq<char>>, Seq<char>)>, mapping: Seq<(Seq<char>, OriginModel)>, i: int, j: int)
    requires
        0 <= i <= j <= items.len(),
        annotated_items(items.take(i), mapping) is Err,
    ensures
        annotated_items(items.take(j), mapping) == annotated_items(items.take(i), mapping),
    decreases j - i,
{
    if j > i {
        lemma_items_stay(items, mapping, i, j - 1);
        assert(items.take(j).drop_last() =~= items.take(j - 1));
    }
}

fn annotate_items(items: &Vec<TypedItem>, mapping: &Vec<(String, SymbolOrigin)>) -> (r: Result<Vec<(String, Type)>, String>)
    ensures
        match annotated_items(items_view(items@), origins_mapping_model(mapping@)) {
            Ok(v) => r matches Ok(x) && named_types(x@) == v,
            Err(e) => r matches Err(x) && x@ == e,
        },
{
    let ghost iv = items_view(items@);
    let ghost m = origins_mapping_model(mapping@);
    let mut out: Vec<(String, Type)> = Vec::new();
    let mut i: usize = 0;
    assert(iv.take(0) =~= Seq::<(TypeModel<Seq<char>>, Seq<char>)>::empty());
    assert(named_types(out@) =~= Seq::<(Seq<char>, SemType)>::empty());
    while i < items.len()
        invariant
            i <= items@.len(),
            iv == items_view(items@),
            m == origins_mapping_model(mapping@),
            annotated_items(iv.take(i as int), m) == Ok::<Seq<(Seq<char>, SemType)>, Seq<char>>(named_types(out@)),
        decreases items@.len() - i,
    {
        assert(iv.take(i + 1).drop_last() =~= iv.take(i as int));
        assert(iv.take(i + 1).last() == iv[i as int]);
        assert(iv.take(iv.len() as int) =~= iv);
        match annotate_parsed(&items[i].typename, mapping) {
            Ok(a) => {
                let ghost before = out@;
                out.push((items[i].name.clone(), a));
                assert(named_types(out@) =~= named_types(before).push((iv[i as int].1, a@)));
            },
            Err(e) => {
                proof {
                    lemma_items_stay(iv, m, i + 1, iv.len() as int);
                }
                return Err(e);
            },
        }
        i = i + 1;
    }
    assert(iv.take(iv.len() as int) =~= iv);
    Ok(out)
}

/// The signature of a function written in the source, annotated: its
/// return type (none is Nil), then its arguments; the first error.
pub open spec fn annotated_function(f: FunctionModel, mapping: Seq<(Seq<char>, OriginModel)>) -> Result<SignatureModel, Seq<char>> {
    let ret = match f.rettype {
        Some(t) => annotation_of(t, mapping),
        None => Ok(SemType::Nil),
    };
    match ret {
        Err(e) => Err(e),
        Ok(r) => match annotated_items(f.args, mapping) {
            Ok(args) => Ok((r, args)),
            Err(e) => Err(e),
        },
    }
}

/// The signature of `func_decl` with its types annotated (see
/// `annotate_type`): the return type (none is Nil), then the arguments.
pub fn annotate_function_decl(func_decl: &FunctionDecl, typenames_origins: &Vec<(String, SymbolOrigin)>) -> (r: Result<FunctionSignature, String>)
    ensures
        match annotated_function(func_decl@, origins_mapping_model(typenames_origins@)) {
            Ok(s) => r matches Ok(x) && x@ == s,
            Err(e) => r matches Err(x) && x@ == e,
        },
{
    let rettype = match &func_decl.rettype {
        Some(t) => match annotate_parsed(t, typenames_origins) {
            Ok(a) => a,
            Err(e) => {
                return Err(e);
            },
        },
        None => Type::Nil,
    };
    match annotate_items(&func_decl.args, typenames_origins) {
        Ok(args) => Ok(FunctionSignature { rettype, args }),
        Err(e) => Err(e),
    }
}

/// The methods of a class, annotated in order; the first error.
pub open spec fn annotated_methods(ms: Seq<FunctionModel>, mapping: Seq<(Seq<char>, OriginModel)>) -> Result<Seq<(Seq<char>, SignatureModel)>, Seq<char>>
    decreases ms.len(),
{
    if ms.len() == 0 {
        Ok(Seq::empty())
    } else {
        match annotated_methods(ms.drop_last(), mapping) {
            Ok(v) => match annotated_function(ms.last(), mapping) {
                Ok(s) => Ok(v.push((ms.last().name, s))),
                Err(e) => Err(e),
            },
            Err(e) => Err(e),
        }
    }
}

/// The signature of a class written in the source, annotated: its fields,
/// then its methods; where no method is named like the class, a default
/// constructor is added, whose arguments are the fields and whose return
/// type is the class.
pub open spec fn annotated_class(c: crate::ast::parsed::ClassModel, mapping: Seq<(Seq<char>, OriginModel)>) -> Result<crate::semantic_checker::symbols::ClassModel, Seq<char>> {
    match annotated_items(c.fields, mapping) {
        Err(e) => Err(e),
        Ok(fields) => match annotated_methods(c.methods, mapping) {
            Err(e) => Err(e),
            Ok(methods) => if c.methods.map_values(|f: FunctionModel| f.name).contains(c.name) {
                Ok((c.is_active, fields, methods))
            } else {
                match annotated(SemType::Ident(c.name), mapping) {
                    Annotation::Done(t) => Ok((c.is_active, fields, methods.push((c.name, (t, fields))))),
                    Annotation::Failed(e) => Err(e),
                    Annotation::Unexpected => Err(Seq::empty()),
                }
            },
        },
    }
}

/// The signature of `class_decl` with its types annotated: its fields, then
/// its methods, and a default constructor where none is declared (its
/// arguments are the fields, its return type the class).
pub fn annotate_class_decl(class_decl: &ClassDecl, typenames_origins: &Vec<(String, SymbolOrigin)>) -> (r: Result<ClassSignature, String>)
    ensures
        match annotated_class(class_decl@, origins_mapping_model(typenames_origins@)) {
            Ok(s) => r matches Ok(x) && x@ == s,
            Err(e) => r matches Err(x) && x@ == e,
        },
{
    let ghost c = class_decl@;
    let ghost m = origins_mapping_model(typenames_origins@);
    let fields = match annotate_items(&class_decl.fields, typenames_origins) {
        Ok(v) => v,
        Err(e) => {
            return Err(e);
        },
    };
    let mut methods: Vec<(String, FunctionSignature)> = Vec::new();
    let ghost ms = c.methods;
    let mut i: usize = 0;
    let mut has_constructor = false;
    assert(ms.take(0) =~= Seq::<FunctionModel>::empty());
    assert(methods@.map_values(|p: (String, FunctionSignature)| (p.0@, p.1@)) =~= Seq::<(Seq<char>, SignatureModel)>::empty());
    while i < class_decl.methods.len()
        invariant
            i <= class_decl.methods@.len(),
            c == class_decl@,
            ms == c.methods,
            m == origins_mapping_model(typenames_origins@),
            annotated_items(c.fields, m) == Ok::<Seq<(Seq<char>, SemType)>, Seq<char>>(named_types(fields@)),
            annotated_methods(ms.take(i as int), m) == Ok::<Seq<(Seq<char>, SignatureModel)>, Seq<char>>(
                methods@.map_values(|p: (String, FunctionSignature)| (p.0@, p.1@)),
            ),
            has_constructor == ms.take(i as int).map_values(|f: FunctionModel| f.name).contains(c.name),
        decreases class_decl.methods@.len() - i,
    {
        let f = &class_decl.methods[i];
        assert(ms[i as int] == f@);
        assert(ms.take(i + 1).drop_last() =~= ms.take(i as int));
        assert(ms.take(i + 1).map_values(|f: FunctionModel| f.name) =~= ms.take(i as int).map_values(
            |f: FunctionModel| f.name,
        ).push(f@.name));
        match annotate_function_decl(f, typenames_origins) {
            Ok(sig) => {
                let ghost before = methods@;
                let same = crate::text::same_text(f.name.as_str(), class_decl.name.as_str());
                has_constructor = has_constructor || same;
                proof {
                    let old_names = ms.take(i as int).map_values(|f: FunctionModel| f.name);
                    let new_names = ms.take(i + 1).map_values(|f: FunctionModel| f.name);
                    assert(new_names =~= old_names.push(f@.name));
                    if has_constructor {
                        if same {
                            assert(new_names[i as int] == c.name);
                        } else {
                            let k = choose|k: int| 0 <= k < old_names.len() && old_names[k] == c.name;
                            assert(new_names[k] == c.name);
                        }
                    } else {
                        assert(!new_names.contains(c.name)) by {
                            if new_names.contains(c.name) {
                                let k = choose|k: int| 0 <= k < new_names.len() && new_names[k] == c.name;
                                if k < i {
                                    assert(old_names[k] == c.name);
                                }
                            }
                        }
                    }
                }
                methods.push((f.name.clone(), sig));
                assert(methods@.map_values(|p: (String, FunctionSignature)| (p.0@, p.1@)) =~= before.map_values(
                    |p: (String, FunctionSignature)| (p.0@, p.1@),
                ).push((f@.name, sig@)));
            },
            Err(e) => {
                proof {
                    lemma_methods_stay(ms, m, i + 1, ms.len() as int);
                    assert(ms.take(ms.len() as int) =~= ms);
                }
                return Err(e);
            },
        }
        i = i + 1;
    }
    assert(ms.take(ms.len() as int) =~= ms);
    if !has_constructor {
        let rettype = match annotate_type(&Type::Ident(class_decl.name.clone()), typenames_origins) {
            Ok(t) => t,
            Err(e) => {
                return Err(e);
            },
        };
        let args = copy_named(&fields);
        methods.push((class_decl.name.clone(), FunctionSignature { rettype, args }));
    }
    Ok(ClassSignature { is_active: class_decl.is_active, fields, methods })
}

fn copy_named(v: &Vec<(String, Type)>) -> (r: Vec<(String, Type)>)
    ensures
        named_types(r@) == named_types(v@),
{
    let mut out: Vec<(String, Type)> = Vec::new();
    let mut i: usize = 0;
    while i < v.len()
        invariant
            i <= v@.len(),
            named_types(out@) == named_types(v@).take(i as int),
        decreases v@.len() - i,
    {
        let ghost before = out@;
        let name = v[i].0.clone();
        let t = v[i].1.duplicate();
        out.push((name, t));
        assert(named_types(out@) =~= named_types(before).push((v@[i as int].0@, v@[i as int].1@)));
        assert(named_types(out@) =~= named_types(v@).take(i + 1));
        i = i + 1;
    }
    assert(named_types(v@).take(v@.len() as int) =~= named_types(v@));
    out
}

proof fn lemma_methods_stay(ms: Seq<FunctionModel>, mapping: Seq<(Seq<char>, OriginModel)>, i: int, j: int)
    requires
        0 <= i <= j <= ms.len(),
        annotated_methods(ms.take(i), mapping) is Err,
    ensures
        annotated_methods(ms.take(j), mapping) == annotated_methods(ms.take(i), mapping),
    decreases j - i,
{
    if j > i {
        lemma_methods_stay(ms, mapping, i, j - 1);
        assert(ms.take(j).drop_last() =~= ms.take(j - 1));
    }
}

} // verus!
