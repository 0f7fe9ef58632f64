//! What the semantic checks know about the symbols of a program: where each
//! name visible in a file comes from, and the signatures of functions and
//! classes.
use vstd::prelude::*;

use crate::alias::ModuleAlias;
use crate::ast::{SemType, Type};

verus! {

/// The module that defines a symbol, and the symbol's name there.
#[derive(Debug)]
pub struct SymbolOrigin {
    pub module: ModuleAlias,
    pub name: String,
}

/// The return type and the named, typed arguments of a function or method.
#[derive(Debug)]
pub struct FunctionSignature {
    pub rettype: Type,
    pub args: Vec<(String, Type)>,
}

/// A class or active type: whether it is active, its fields and its
/// methods (the constructor is the method named like the class).
#[derive(Debug)]
pub struct ClassSignature {
    pub is_active: bool,
    pub fields: Vec<(String, Type)>,
    pub methods: Vec<(String, FunctionSignature)>,
}

/// The origins of the type names and function names visible in one file.
#[derive(Debug)]
pub struct SymbolOriginsPerFile {
    pub typenames: Vec<(String, SymbolOrigin)>,
    pub functions: Vec<(String, SymbolOrigin)>,
}

/// The signatures of all classes and functions, by origin.
#[derive(Debug)]
pub struct GlobalSignatures {
    pub typenames: Vec<(SymbolOrigin, ClassSignature)>,
    pub functions: Vec<(SymbolOrigin, FunctionSignature)>,
}

/// Everything the expression checks look symbols up in.
#[derive(Debug)]
pub struct GlobalSymbolsInfo {
    pub symbols_per_file: Vec<(ModuleAlias, SymbolOriginsPerFile)>,
    pub global_signatures: GlobalSignatures,
}

pub type OriginModel = (Seq<char>, Seq<char>);

pub type SignatureModel = (SemType, Seq<(Seq<char>, SemType)>);

pub type ClassModel = (bool, Seq<(Seq<char>, SemType)>, Seq<(Seq<char>, SignatureModel)>);

pub type FileModel = (Seq<(Seq<char>, OriginModel)>, Seq<(Seq<char>, OriginModel)>);

/// Named types as (name, type) pairs.
pub open spec fn named_types(v: Seq<(String, Type)>) -> Seq<(Seq<char>, SemType)> {
    v.map_values(|p: (String, Type)| (p.0@, p.1@))
}

impl View for SymbolOrigin {
    type V = OriginModel;

    open spec fn view(&self) -> OriginModel {
        (self.module@, self.name@)
    }
}

impl View for FunctionSignature {
    type V = SignatureModel;

    open spec fn view(&self) -> SignatureModel {
        (self.rettype@, named_types(self.args@))
    }
}

impl View for ClassSignature {
    type V = ClassModel;

    open spec fn view(&self) -> ClassModel {
        (
            self.is_active,
            named_types(self.fields@),
            self.methods@.map_values(|p: (String, FunctionSignature)| (p.0@, p.1@)),
        )
    }
}

impl View for SymbolOriginsPerFile {
    type V = FileModel;

    open spec fn view(&self) -> FileModel {
        (
            self.typenames@.map_values(|p: (String, SymbolOrigin)| (p.0@, p.1@)),
            self.functions@.map_values(|p: (String, SymbolOrigin)| (p.0@, p.1@)),
        )
    }
}

/// The value stored last under the key `k`.
pub open spec fn lookup<K, V>(entries: Seq<(K, V)>, k: K) -> Option<V>
    decreases entries.len(),
{
    if entries.len() == 0 {
        None
    } else if entries.last().0 == k {
        Some(entries.last().1)
    } else {
        lookup(entries.drop_last(), k)
    }
}

/// Models of the files' symbol origins.
pub open spec fn files_model(v: Seq<(ModuleAlias, SymbolOriginsPerFile)>) -> Seq<(Seq<char>, FileModel)> {
    v.map_values(|p: (ModuleAlias, SymbolOriginsPerFile)| (p.0@, p.1@))
}

/// Models of the class signatures.
pub open spec fn classes_model(v: Seq<(SymbolOrigin, ClassSignature)>) -> Seq<(OriginModel, ClassModel)> {
    v.map_values(|p: (SymbolOrigin, ClassSignature)| (p.0@, p.1@))
}

/// Models of the function signatures.
pub open spec fn functions_model(v: Seq<(SymbolOrigin, FunctionSignature)>) -> Seq<(OriginModel, SignatureModel)> {
    v.map_values(|p: (SymbolOrigin, FunctionSignature)| (p.0@, p.1@))
}

} // verus!

verus! {

pub proof fn lemma_lookup_at<K, V>(m: Seq<(K, V)>, k: K, idx: int)
    requires
        0 <= idx < m.len(),
        m[idx].0 == k,
        forall|j: int| idx < j < m.len() ==> (#[trigger] m[j]).0 != k,
    ensures
        lookup(m, k) == Some(m[idx].1),
    decreases m.len(),
{
    if idx < m.len() - 1 {
        assert(m.last() == m[m.len() - 1]);
        assert forall|j: int| idx < j < m.drop_last().len() implies (#[trigger] m.drop_last()[j]).0 != k by {
            assert(m.drop_last()[j] == m[j]);
        }
        lemma_lookup_at(m.drop_last(), k, idx);
    }
}

pub proof fn lemma_lookup_none<K, V>(m: Seq<(K, V)>, k: K)
    requires
        forall|j: int| 0 <= j < m.len() ==> (#[trigger] m[j]).0 != k,
    ensures
        lookup(m, k) is None,
    decreases m.len(),
{
    if m.len() > 0 {
        assert(m.last() == m[m.len() - 1]);
        assert forall|j: int| 0 <= j < m.drop_last().len() implies (#[trigger] m.drop_last()[j]).0 != k by {
            assert(m.drop_last()[j] == m[j]);
        }
        lemma_lookup_none(m.drop_last(), k);
    }
}

/// Position of the last entry named `name`.
pub fn find_last_named<T>(entries: &Vec<(String, T)>, name: &str) -> (r: Option<usize>)
    ensures
        r matches Some(k) ==> k < entries@.len() && entries@[k as int].0@ == name@
            && forall|j: int| k < j < entries@.len() ==> (#[trigger] entries@[j]).0@ != name@,
        r is None ==> forall|j: int| 0 <= j < entries@.len() ==> (#[trigger] entries@[j]).0@ != name@,
{
    let mut k: usize = entries.len();
    while k > 0
        invariant
            k <= entries@.len(),
            forall|j: int| k <= j < entries@.len() ==> (#[trigger] entries@[j]).0@ != name@,
        decreases k,
    {
        if crate::text::same_text(entries[k - 1].0.as_str(), name) {
            return Some(k - 1);
        }
        k = k - 1;
    }
    None
}


/// `lookup` finds the value of the last entry with key `k`, and nothing
/// where no entry has it.
pub proof fn lemma_lookup_found<K, V>(m: Seq<(K, V)>, k: K, r: Option<usize>)
    requires
        r matches Some(i) ==> i < m.len() && m[i as int].0 == k
            && forall|j: int| i < j < m.len() ==> (#[trigger] m[j]).0 != k,
        r is None ==> forall|j: int| 0 <= j < m.len() ==> (#[trigger] m[j]).0 != k,
    ensures
        match r {
            Some(i) => lookup(m, k) == Some(m[i as int].1),
            None => lookup(m, k) is None,
        },
{
    match r {
        Some(i) => lemma_lookup_at(m, k, i as int),
        None => lemma_lookup_none(m, k),
    }
}

/// Position of the last entry whose key is the module `file`.
pub fn find_file<T>(entries: &Vec<(ModuleAlias, T)>, file: &ModuleAlias) -> (r: Option<usize>)
    ensures
        r matches Some(k) ==> k < entries@.len() && entries@[k as int].0@ == file@
            && forall|j: int| k < j < entries@.len() ==> (#[trigger] entries@[j]).0@ != file@,
        r is None ==> forall|j: int| 0 <= j < entries@.len() ==> (#[trigger] entries@[j]).0@ != file@,
{
    let mut k: usize = entries.len();
    while k > 0
        invariant
            k <= entries@.len(),
            forall|j: int| k <= j < entries@.len() ==> (#[trigger] entries@[j]).0@ != file@,
        decreases k,
    {
        if entries[k - 1].0.same_as(file) {
            return Some(k - 1);
        }
        k = k - 1;
    }
    None
}

/// Position of the last entry whose key is the symbol `name` of `module`.
pub fn find_origin<T>(entries: &Vec<(SymbolOrigin, T)>, module: &ModuleAlias, name: &str) -> (r: Option<usize>)
    ensures
        r matches Some(k) ==> k < entries@.len() && entries@[k as int].0@ == (module@, name@)
            && forall|j: int| k < j < entries@.len() ==> (#[trigger] entries@[j]).0@ != (module@, name@),
        r is None ==> forall|j: int| 0 <= j < entries@.len() ==> (#[trigger] entries@[j]).0@ != (module@, name@),
{
    let mut k: usize = entries.len();
    while k > 0
        invariant
            k <= entries@.len(),
            forall|j: int| k <= j < entries@.len() ==> (#[trigger] entries@[j]).0@ != (module@, name@),
        decreases k,
    {
        let origin = &entries[k - 1].0;
        if origin.module.same_as(module) && crate::text::same_text(origin.name.as_str(), name) {
            return Some(k - 1);
        }
        k = k - 1;
    }
    None
}

} // verus!
