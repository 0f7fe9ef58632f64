//! Fully qualified names of user types and functions.
use vstd::prelude::*;

use crate::alias::ModuleAlias;
use crate::text::{chars_of, extend_chars, string_from_chars};

verus! {

/// A user type, named by the module that defines it and its own name.
#[derive(Debug, PartialEq, Eq, Hash)]
pub struct SymbolType {
    pub module: ModuleAlias,
    pub name: String,
}

/// A function or method, named by the module that defines it and its own
/// name (`Type::method` for methods).
#[derive(Debug, PartialEq, Eq, Hash)]
pub struct SymbolFunc {
    pub module: ModuleAlias,
    pub name: String,
}

/// `module::name`, the printed form of a qualified symbol.
pub open spec fn qualified_text(module: Seq<char>, name: Seq<char>) -> Seq<char> {
    module + seq![':', ':'] + name
}

impl View for SymbolType {
    type V = (Seq<char>, Seq<char>);

    open spec fn view(&self) -> (Seq<char>, Seq<char>) {
        (self.module@, self.name@)
    }
}

impl View for SymbolFunc {
    type V = (Seq<char>, Seq<char>);

    open spec fn view(&self) -> (Seq<char>, Seq<char>) {
        (self.module@, self.name@)
    }
}

fn qualified(module: &ModuleAlias, name: &String) -> (r: Vec<char>)
    ensures
        r@ == qualified_text(module@, name@),
{
    let m = module.as_string();
    let mut r = chars_of(m.as_str());
    r.push(':');
    r.push(':');
    let n = chars_of(name.as_str());
    extend_chars(&mut r, n.as_slice());
    r
}

impl SymbolType {
    pub fn new(module: &ModuleAlias, name: &str) -> (r: SymbolType)
        ensures
            r@ == (module@, name@),
    {
        let n = chars_of(name);
        SymbolType { module: module.clone_alias(), name: string_from_chars(n.as_slice()) }
    }

    /// A copy naming the same type.
    pub fn duplicate(&self) -> (r: SymbolType)
        ensures
            r@ == self@,
    {
        SymbolType { module: self.module.clone_alias(), name: self.name.clone() }
    }

    /// The same symbol.
    pub fn same_as(&self, other: &SymbolType) -> (r: bool)
        ensures
            r == (self@ == other@),
    {
        self.module.same_as(&other.module) && self.name == other.name
    }

    /// Printed form, `module::Name`.
    pub fn text(&self) -> (r: Vec<char>)
        ensures
            r@ == qualified_text(self@.0, self@.1),
    {
        qualified(&self.module, &self.name)
    }
}

impl SymbolFunc {
    pub fn new(module: &ModuleAlias, name: &str) -> (r: SymbolFunc)
        ensures
            r@ == (module@, name@),
    {
        let n = chars_of(name);
        SymbolFunc { module: module.clone_alias(), name: string_from_chars(n.as_slice()) }
    }

    /// A copy naming the same function.
    pub fn duplicate(&self) -> (r: SymbolFunc)
        ensures
            r@ == self@,
    {
        SymbolFunc { module: self.module.clone_alias(), name: self.name.clone() }
    }

    /// The same symbol.
    pub fn same_as(&self, other: &SymbolFunc) -> (r: bool)
        ensures
            r == (self@ == other@),
    {
        self.module.same_as(&other.module) && self.name == other.name
    }

    /// Printed form, `module::name`.
    pub fn text(&self) -> (r: Vec<char>)
        ensures
            r@ == qualified_text(self@.0, self@.1),
    {
        qualified(&self.module, &self.name)
    }
}

} // verus!

verus! {

impl SymbolType {
    /// The constructor of the type: the method named like the type,
    /// `Type::Type`.
    pub fn constructor(&self) -> (r: SymbolFunc)
        ensures
            r@ == (self@.0, self@.1 + "::"@ + self@.1),
    {
        let mut name = chars_of(self.name.as_str());
        let sep = chars_of("::");
        extend_chars(&mut name, sep.as_slice());
        let again = chars_of(self.name.as_str());
        extend_chars(&mut name, again.as_slice());
        SymbolFunc { module: self.module.clone_alias(), name: string_from_chars(name.as_slice()) }
    }
}

impl SymbolFunc {
    /// The function belongs to the standard library (module `std`).
    pub fn is_std(&self) -> (r: bool)
        ensures
            r == (self@.0 == "std"@),
    {
        let std = ModuleAlias::std_module();
        proof {
            reveal_strlit("std");
            assert("std"@ =~= seq!['s', 't', 'd']);
        }
        self.module.same_as(&std)
    }

    /// The printed name of the symbol is `s`.
    pub fn is_eq_to_str(&self, s: &str) -> (r: bool)
        ensures
            r == (qualified_text(self@.0, self@.1) == s@),
    {
        let text = self.text();
        let t = string_from_chars(text.as_slice());
        crate::text::same_text(t.as_str(), s)
    }
}

} // verus!
