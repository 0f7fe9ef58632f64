//! Types of the language after parsing (`ParsedType`) and after symbol
//! resolution (`VerifiedType`), together with their mathematical model.
use vstd::prelude::*;

use crate::symbols::SymbolType;

verus! {

/// A type of the language; `T` names user-defined types.
#[derive(Debug, PartialEq, Eq, Hash)]
pub enum Type<T> {
    Int,
    Float,
    Bool,
    String,
    Maybe(Box<Type<T>>),
    Tuple(Vec<Type<T>>),
    List(Box<Type<T>>),
    Custom(T),
}

/// A type as written in the source, user types by their plain name.
pub type ParsedType = Type<String>;

/// A type whose user types are resolved to symbols.
pub type VerifiedType = Type<SymbolType>;

/// The mathematical value of a `Type`: sequences in place of vectors.
pub ghost enum TypeModel<V> {
    Int,
    Float,
    Bool,
    String,
    Maybe(Box<TypeModel<V>>),
    Tuple(Seq<TypeModel<V>>),
    List(Box<TypeModel<V>>),
    Custom(V),
}

pub open spec fn model_of<T: View>(t: Type<T>) -> TypeModel<T::V>
    decreases t,
{
    match t {
        Type::Int => TypeModel::Int,
        Type::Float => TypeModel::Float,
        Type::Bool => TypeModel::Bool,
        Type::String => TypeModel::String,
        Type::Maybe(inner) => TypeModel::Maybe(Box::new(model_of(*inner))),
        Type::Tuple(items) => TypeModel::Tuple(
            Seq::new(
                items@.len(),
                |i: int|
                    if 0 <= i < items@.len() {
                        model_of(items@[i])
                    } else {
                        TypeModel::Int
                    },
            ),
        ),
        Type::List(inner) => TypeModel::List(Box::new(model_of(*inner))),
        Type::Custom(c) => TypeModel::Custom(c@),
    }
}

impl<T: View> View for Type<T> {
    type V = TypeModel<T::V>;

    open spec fn view(&self) -> TypeModel<T::V> {
        model_of(*self)
    }
}

/// Nesting depth of a type (used as a termination measure).
pub open spec fn depth<V>(t: TypeModel<V>) -> nat
    decreases t,
{
    match t {
        TypeModel::Maybe(inner) => depth(*inner) + 1,
        TypeModel::List(inner) => depth(*inner) + 1,
        TypeModel::Tuple(items) => depth_seq(items) + 1,
        _ => 0,
    }
}

/// Largest nesting depth among a sequence of types.
pub open spec fn depth_seq<V>(s: Seq<TypeModel<V>>) -> nat
    decreases s,
{
    if s.len() == 0 {
        0
    } else {
        let a = depth_seq(s.drop_last());
        let b = depth(s.last());
        if a < b {
            b
        } else {
            a
        }
    }
}

pub proof fn lemma_depth_seq_bound<V>(s: Seq<TypeModel<V>>, i: int)
    requires
        0 <= i < s.len(),
    ensures
        depth(s[i]) <= depth_seq(s),
    decreases s.len(),
{
    if i < s.len() - 1 {
        lemma_depth_seq_bound(s.drop_last(), i);
    }
}

/// The model of a tuple type lists the models of its items.
pub proof fn lemma_model_tuple<T: View>(items: Vec<Type<T>>)
    ensures
        model_of(Type::Tuple(items)) == TypeModel::<T::V>::Tuple(models_of(items@)),
{
    let m = model_of(Type::Tuple(items));
    if let TypeModel::Tuple(s) = m {
        assert(s.len() == items@.len());
        assert forall|k: int| 0 <= k < s.len() implies s[k] == models_of(items@)[k] by {
            assert(s[k] == model_of(items@[k]));
        }
        assert(s =~= models_of(items@));
    }
}

/// The models of a sequence of types.
pub open spec fn models_of<T: View>(s: Seq<Type<T>>) -> Seq<TypeModel<T::V>> {
    Seq::new(s.len(), |i: int| s[i]@)
}

} // verus!

verus! {

impl Type<SymbolType> {
    /// A copy with the same model.
    pub fn duplicate(&self) -> (r: Type<SymbolType>)
        ensures
            r@ == self@,
        decreases depth(self@),
    {
        match self {
            Type::Int => Type::Int,
            Type::Float => Type::Float,
            Type::Bool => Type::Bool,
            Type::String => Type::String,
            Type::Maybe(inner) => Type::Maybe(Box::new((&**inner).duplicate())),
            Type::List(inner) => Type::List(Box::new((&**inner).duplicate())),
            Type::Custom(c) => Type::Custom(c.duplicate()),
            Type::Tuple(items) => {
                proof {
                    lemma_model_tuple(*items);
                }
                let mut out: Vec<Type<SymbolType>> = Vec::new();
                let mut i: usize = 0;
                while i < items.len()
                    invariant
                        i <= items@.len(),
                        out@.len() == i,
                        forall|j: int| 0 <= j < i ==> #[trigger] out@[j]@ == items@[j]@,
                        depth(self@) == depth_seq(models_of(items@)) + 1,
                    decreases items@.len() - i,
                {
                    proof {
                        lemma_depth_seq_bound(models_of(items@), i as int);
                    }
                    let item = items[i].duplicate();
                    out.push(item);
                    i = i + 1;
                }
                let r = Type::Tuple(out);
                proof {
                    assert(models_of(out@) =~= models_of(items@));
                    lemma_model_tuple(out);
                    lemma_model_tuple(*items);
                }
                r
            },
        }
    }

    /// Both types have the same model.
    pub fn same_as(&self, other: &Type<SymbolType>) -> (r: bool)
        ensures
            r == (self@ == other@),
        decreases depth(self@),
    {
        match (self, other) {
            (Type::Int, Type::Int) => true,
            (Type::Float, Type::Float) => true,
            (Type::Bool, Type::Bool) => true,
            (Type::String, Type::String) => true,
            (Type::Maybe(a), Type::Maybe(b)) => (&**a).same_as(&**b),
            (Type::List(a), Type::List(b)) => (&**a).same_as(&**b),
            (Type::Custom(a), Type::Custom(b)) => a.same_as(b),
            (Type::Tuple(a), Type::Tuple(b)) => {
                assert(*self == Type::Tuple(*a));
                assert(*other == Type::Tuple(*b));
                let ghost ma = models_of(a@);
                let ghost mb = models_of(b@);
                proof {
                    lemma_model_tuple(*a);
                    lemma_model_tuple(*b);
                }
                if a.len() != b.len() {
                    assert(ma.len() != mb.len());
                    return false;
                }
                let mut i: usize = 0;
                while i < a.len()
                    invariant
                        i <= a@.len(),
                        a@.len() == b@.len(),
                        ma == models_of(a@),
                        mb == models_of(b@),
                        forall|j: int| 0 <= j < i ==> #[trigger] ma[j] == mb[j],
                        depth(self@) == depth_seq(ma) + 1,
                        self@ == TypeModel::<(Seq<char>, Seq<char>)>::Tuple(ma),
                        other@ == TypeModel::<(Seq<char>, Seq<char>)>::Tuple(mb),
                    decreases a@.len() - i,
                {
                    proof {
                        lemma_depth_seq_bound(ma, i as int);
                    }
                    if !a[i].same_as(&b[i]) {
                        assert(ma[i as int] != mb[i as int]);
                        assert(self@ != other@) by {
                            if self@ == other@ {
                                assert(ma == mb);
                            }
                        }
                        return false;
                    }
                    i = i + 1;
                }
                assert(ma =~= mb);
                true
            },
            _ => false,
        }
    }
}

} // verus!

verus! {

/// Printed form of a resolved type, in the notation of the language:
/// `Int`, `Float`, `Bool`, `String`, `T?`, `[T]`, `(A, B)` and
/// `module::Name` for user types.
pub open spec fn type_display(t: TypeModel<(Seq<char>, Seq<char>)>) -> Seq<char>
    decreases t,
{
    match t {
        TypeModel::Int => "Int"@,
        TypeModel::Float => "Float"@,
        TypeModel::Bool => "Bool"@,
        TypeModel::String => "String"@,
        TypeModel::Maybe(inner) => type_display(*inner) + "?"@,
        TypeModel::List(inner) => "["@ + type_display(*inner) + "]"@,
        TypeModel::Tuple(items) => "("@ + types_display(items) + ")"@,
        TypeModel::Custom(s) => crate::symbols::qualified_text(s.0, s.1),
    }
}

/// Printed forms of `s`, separated by `, `.
pub open spec fn types_display(s: Seq<TypeModel<(Seq<char>, Seq<char>)>>) -> Seq<char>
    decreases s,
{
    if s.len() == 0 {
        Seq::empty()
    } else if s.len() == 1 {
        type_display(s[0])
    } else {
        types_display(s.drop_last()) + ", "@ + type_display(s.last())
    }
}

impl Type<SymbolType> {
    /// Printed form (see `type_display`).
    pub fn text(&self) -> (r: Vec<char>)
        ensures
            r@ == type_display(self@),
        decreases depth(self@),
    {
        match self {
            Type::Int => crate::text::chars_of("Int"),
            Type::Float => crate::text::chars_of("Float"),
            Type::Bool => crate::text::chars_of("Bool"),
            Type::String => crate::text::chars_of("String"),
            Type::Maybe(inner) => {
                let mut r = (&**inner).text();
                let q = crate::text::chars_of("?");
                crate::text::extend_chars(&mut r, q.as_slice());
                r
            },
            Type::List(inner) => {
                let mut r = crate::text::chars_of("[");
                let t = (&**inner).text();
                crate::text::extend_chars(&mut r, t.as_slice());
                let q = crate::text::chars_of("]");
                crate::text::extend_chars(&mut r, q.as_slice());
                r
            },
            Type::Custom(c) => c.text(),
            Type::Tuple(items) => {
                proof {
                    lemma_model_tuple(*items);
                }
                let ghost ms = models_of(items@);
                let mut r = crate::text::chars_of("(");
                let mut i: usize = 0;
                while i < items.len()
                    invariant
                        i <= items@.len(),
                        ms == models_of(items@),
                        depth(self@) == depth_seq(ms) + 1,
                        r@ == "("@ + types_display(ms.take(i as int)),
                    decreases items@.len() - i,
                {
                    proof {
                        lemma_depth_seq_bound(ms, i as int);
                    }
                    let ghost before = r@;
                    if i > 0 {
                        let sep = crate::text::chars_of(", ");
                        crate::text::extend_chars(&mut r, sep.as_slice());
                    }
                    let t = items[i].text();
                    crate::text::extend_chars(&mut r, t.as_slice());
                    proof {
                        let p = ms.take(i + 1);
                        assert(p.drop_last() =~= ms.take(i as int));
                        assert(p.last() == items@[i as int]@);
                        if i == 0 {
                            assert(ms.take(0) =~= Seq::<TypeModel<(Seq<char>, Seq<char>)>>::empty());
                            assert(types_display(p) == type_display(p[0]));
                            assert(r@ =~= "("@ + types_display(p));
                        } else {
                            assert(r@ =~= "("@ + types_display(p));
                        }
                    }
                    i = i + 1;
                }
                assert(ms.take(items@.len() as int) =~= ms);
                let q = crate::text::chars_of(")");
                crate::text::extend_chars(&mut r, q.as_slice());
                r
            },
        }
    }
}

} // verus!
