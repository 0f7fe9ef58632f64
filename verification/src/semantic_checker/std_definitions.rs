//! Methods that the standard library defines on built-in types.
use vstd::prelude::*;

use crate::ast::{type_text, SemType, Type};
use crate::semantic_checker::symbols::{lookup, FunctionSignature, SignatureModel};
use crate::text::{chars_of, extend_chars, string_from_chars};

verus! {

/// The built-in types that have a table of standard methods.
pub open spec fn has_std_methods(t: SemType) -> bool {
    t is Int || t is Float || t is Nil || t is Bool || t is String || t is List
}

/// The standard methods of `t`: lists have `size` and `push`; the other
/// built-in types have none yet.
pub open spec fn std_methods(t: SemType) -> Seq<(Seq<char>, SignatureModel)> {
    match t {
        SemType::List(inside) => seq![
            ("size"@, (SemType::Int, Seq::empty())),
            ("push"@, (SemType::Nil, seq![("item"@, *inside)])),
        ],
        _ => Seq::empty(),
    }
}

/// The message for a method that `t` does not have.
pub open spec fn missing_method_message(method: Seq<char>, t: SemType) -> Seq<char> {
    "Cant find method "@ + method + " for type "@ + type_text(t)
}

fn text(s: &str) -> (r: String)
    ensures
        r@ == s@,
{
    let cs = chars_of(s);
    string_from_chars(cs.as_slice())
}

/// The methods of lists of `inside`.
fn get_list_methods(inside: &Type) -> (r: Vec<(String, FunctionSignature)>)
    ensures
        r@.map_values(|p: (String, FunctionSignature)| (p.0@, p.1@)) == std_methods(SemType::List(Box::new(inside@))),
{
    let mut push_args: Vec<(String, Type)> = Vec::new();
    push_args.push((text("item"), inside.duplicate()));
    let mut r: Vec<(String, FunctionSignature)> = Vec::new();
    r.push((text("size"), FunctionSignature { rettype: Type::Int, args: Vec::new() }));
    r.push((text("push"), FunctionSignature { rettype: Type::Nil, args: push_args }));
    assert(crate::semantic_checker::symbols::named_types(r@[0].1.args@) =~= Seq::<(Seq<char>, SemType)>::empty());
    assert(crate::semantic_checker::symbols::named_types(r@[1].1.args@) =~= seq![("item"@, inside@)]);
    assert(r@.map_values(|p: (String, FunctionSignature)| (p.0@, p.1@)) =~= std_methods(SemType::List(Box::new(inside@))));
    r
}

fn get_int_methods() -> (r: Vec<(String, FunctionSignature)>)
    ensures
        r@.len() == 0,
{
    Vec::new()
}

fn get_float_methods() -> (r: Vec<(String, FunctionSignature)>)
    ensures
        r@.len() == 0,
{
    Vec::new()
}

fn get_nil_methods() -> (r: Vec<(String, FunctionSignature)>)
    ensures
        r@.len() == 0,
{
    Vec::new()
}

fn get_bool_methods() -> (r: Vec<(String, FunctionSignature)>)
    ensures
        r@.len() == 0,
{
    Vec::new()
}

fn get_string_methods() -> (r: Vec<(String, FunctionSignature)>)
    ensures
        r@.len() == 0,
{
    Vec::new()
}

/// The standard methods of the built-in type `t`.
fn get_std_methods(t: &Type) -> (r: Vec<(String, FunctionSignature)>)
    requires
        has_std_methods(t@),
    ensures
        r@.map_values(|p: (String, FunctionSignature)| (p.0@, p.1@)) == std_methods(t@),
{
    let r = match t {
        Type::List(inside) => get_list_methods(&**inside),
        Type::Int => get_int_methods(),
        Type::Float => get_float_methods(),
        Type::Nil => get_nil_methods(),
        Type::Bool => get_bool_methods(),
        _ => get_string_methods(),
    };
    assert(r@.map_values(|p: (String, FunctionSignature)| (p.0@, p.1@)) =~= std_methods(t@));
    r
}

/// The signature of the standard method `method` of the built-in type `t`,
/// or an error naming the method and the type.
pub fn get_std_method(t: &Type, method: &String) -> (r: Result<FunctionSignature, String>)
    requires
        has_std_methods(t@),
    ensures
        match lookup(std_methods(t@), method@) {
            Some(sig) => r matches Ok(s) && s@ == sig,
            None => r matches Err(e) && e@ == missing_method_message(method@, t@),
        },
{
    let mut methods = get_std_methods(t);
    let ghost m = methods@.map_values(|p: (String, FunctionSignature)| (p.0@, p.1@));
    let mut k: usize = methods.len();
    assert(m.take(k as int) =~= m);
    while k > 0
        invariant
            k <= methods@.len(),
            m == methods@.map_values(|p: (String, FunctionSignature)| (p.0@, p.1@)),
            m == std_methods(t@),
            lookup(m, method@) == lookup(m.take(k as int), method@),
        decreases k,
    {
        assert(m.take(k as int).drop_last() =~= m.take(k - 1));
        if methods[k - 1].0 == *method {
            let (_, signature) = methods.remove(k - 1);
            return Ok(signature);
        }
        k = k - 1;
    }
    let mut message = chars_of("Cant find method ");
    let name = chars_of(method.as_str());
    extend_chars(&mut message, name.as_slice());
    let middle = chars_of(" for type ");
    extend_chars(&mut message, middle.as_slice());
    t.write_text(&mut message);
    Err(string_from_chars(message.as_slice()))
}

} // verus!
