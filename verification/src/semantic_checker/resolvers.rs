//! Compiled names of symbols, and the mapping from the names visible in a
//! file to the compiled names of the symbols they denote.
use vstd::prelude::*;

use crate::alias::ModuleAlias;
use crate::ast::{push_escaped, quoted};
use crate::semantic_checker::symbols::lookup;
use crate::text::{chars_of, extend_chars, string_from_chars};

verus! {

/// `<module>::<name>`: the name a symbol is compiled under.
pub open spec fn compiled_name(module: Seq<char>, name: Seq<char>) -> Seq<char> {
    module + "::"@ + name
}

/// `<module>::<type>::<method>`: the name a method is compiled under.
pub open spec fn compiled_method(module: Seq<char>, typename: Seq<char>, method: Seq<char>) -> Seq<char> {
    module + "::"@ + typename + "::"@ + method
}

pub(crate) fn push_str(out: &mut Vec<char>, s: &str)
    ensures
        final(out)@ == old(out)@ + s@,
{
    let cs = chars_of(s);
    extend_chars(out, cs.as_slice());
}

/// The name `name` of the module `alias` is compiled under.
pub fn compile_name(alias: &ModuleAlias, name: &String) -> (r: String)
    ensures
        r@ == compiled_name(alias@, name@),
{
    let module = alias.as_string();
    let mut out = chars_of(module.as_str());
    push_str(&mut out, "::");
    push_str(&mut out, name.as_str());
    string_from_chars(out.as_slice())
}

/// The name the method `method` of the type `typename` of the module
/// `alias` is compiled under.
pub fn compile_method(alias: &ModuleAlias, typename: &String, method: &String) -> (r: String)
    ensures
        r@ == compiled_method(alias@, typename@, method@),
{
    let module = alias.as_string();
    let mut out = chars_of(module.as_str());
    push_str(&mut out, "::");
    push_str(&mut out, typename.as_str());
    push_str(&mut out, "::");
    push_str(&mut out, method.as_str());
    string_from_chars(out.as_slice())
}

/// Symbols as they become visible in a file, each with the module that
/// defines it: the file's own definitions, then its imports.
pub open spec fn symbols_model(symbols: Seq<(ModuleAlias, String)>) -> Seq<(Seq<char>, Seq<char>)> {
    symbols.map_values(|p: (ModuleAlias, String)| (p.0@, p.1@))
}

/// The symbol at `k` has the name of an earlier one.
pub open spec fn repeats_at(symbols: Seq<(Seq<char>, Seq<char>)>, k: int) -> bool {
    exists|j: int| 0 <= j < k && #[trigger] symbols[j].1 == symbols[k].1
}

/// The first position whose symbol has the name of an earlier one.
pub open spec fn first_repeat(symbols: Seq<(Seq<char>, Seq<char>)>) -> Option<int>
    decreases symbols.len(),
{
    if symbols.len() == 0 {
        None
    } else {
        match first_repeat(symbols.drop_last()) {
            Some(k) => Some(k),
            None => if repeats_at(symbols, symbols.len() - 1) {
                Some(symbols.len() - 1)
            } else {
                None
            },
        }
    }
}

proof fn lemma_first_repeat_stays(s: Seq<(Seq<char>, Seq<char>)>, i: int, j: int)
    requires
        0 <= i <= j <= s.len(),
        first_repeat(s.take(i)) is Some,
    ensures
        first_repeat(s.take(j)) == first_repeat(s.take(i)),
    decreases j - i,
{
    if j > i {
        lemma_first_repeat_stays(s, i, j - 1);
        assert(s.take(j).drop_last() =~= s.take(j - 1));
    }
}

/// The mapping from each symbol's name to its compiled name.
pub open spec fn origins_model(symbols: Seq<(Seq<char>, Seq<char>)>) -> Seq<(Seq<char>, Seq<char>)> {
    symbols.map_values(|p: (Seq<char>, Seq<char>)| (p.1, compiled_name(p.0, p.1)))
}

/// Maps each symbol's name to its compiled name; a name that occurs twice
/// is an error that names it (the first repeated one).
pub fn get_origins(symbols: &Vec<(ModuleAlias, String)>) -> (r: Result<Vec<(String, String)>, String>)
    ensures
        match first_repeat(symbols_model(symbols@)) {
            None => r matches Ok(m) && m@.map_values(|p: (String, String)| (p.0@, p.1@)) == origins_model(
                symbols_model(symbols@),
            ),
            Some(k) => r matches Err(e) && e@ == symbols_model(symbols@)[k].1,
        },
{
    let ghost s = symbols_model(symbols@);
    let mut mapping: Vec<(String, String)> = Vec::new();
    let mut i: usize = 0;
    while i < symbols.len()
        invariant
            i <= symbols@.len(),
            s == symbols_model(symbols@),
            first_repeat(s.take(i as int)) is None,
            mapping@.len() == i,
            mapping@.map_values(|p: (String, String)| (p.0@, p.1@)) == origins_model(s.take(i as int)),
        decreases symbols@.len() - i,
    {
        let symbol = &symbols[i].1;
        let ghost t = s.take(i + 1);
        proof {
            assert(t.drop_last() =~= s.take(i as int));
        }
        let mut j: usize = 0;
        while j < i
            invariant
                j <= i < symbols@.len(),
                s == symbols_model(symbols@),
                t == s.take(i + 1),
                t.drop_last() == s.take(i as int),
                first_repeat(s.take(i as int)) is None,
                mapping@.len() == i,
                mapping@.map_values(|p: (String, String)| (p.0@, p.1@)) == origins_model(s.take(i as int)),
                *symbol == symbols@[i as int].1,
                forall|j3: int| 0 <= j3 < j ==> #[trigger] t[j3].1 != t[i as int].1,
            decreases i - j,
        {
            assert(mapping@.map_values(|p: (String, String)| (p.0@, p.1@))[j as int] == origins_model(
                s.take(i as int),
            )[j as int]);
            if mapping[j].0 == *symbol {
                proof {
                    assert(t[j as int].1 == t[i as int].1);
                    assert(repeats_at(t, i as int));
                    assert(first_repeat(t) == Some(i as int));
                    lemma_first_repeat_stays(s, i + 1, s.len() as int);
                    assert(s.take(s.len() as int) =~= s);
                }
                return Err(symbol.clone());
            }
            j = j + 1;
        }
        let target = compile_name(&symbols[i].0, symbol);
        let ghost before = mapping@;
        mapping.push((symbol.clone(), target));
        proof {
            assert(!repeats_at(t, i as int));
            assert(t =~= s.take(i as int).push(s[i as int]));
            assert(origins_model(t) =~= origins_model(s.take(i as int)).push(
                (s[i as int].1, compiled_name(s[i as int].0, s[i as int].1)),
            ));
            assert(mapping@.map_values(|p: (String, String)| (p.0@, p.1@)) =~= before.map_values(
                |p: (String, String)| (p.0@, p.1@),
            ).push((s[i as int].1, compiled_name(s[i as int].0, s[i as int].1))));
        }
        i = i + 1;
    }
    assert(s.take(s.len() as int) =~= s);
    Ok(mapping)
}

/// The symbols visible in one file, each with the module that defines it:
/// the file's own definitions first, then what it imports; and the modules
/// that the file imports.
pub struct FileSymbols {
    pub module: ModuleAlias,
    pub typenames: Vec<(ModuleAlias, String)>,
    pub functions: Vec<(ModuleAlias, String)>,
    pub imports: Vec<ModuleAlias>,
}

/// A file's symbols as plain values.
pub type FileSymbolsModel = (Seq<char>, Seq<(Seq<char>, Seq<char>)>, Seq<(Seq<char>, Seq<char>)>, Seq<Seq<char>>);

impl View for FileSymbols {
    type V = FileSymbolsModel;

    open spec fn view(&self) -> FileSymbolsModel {
        (self.module@, symbols_model(self.typenames@), symbols_model(self.functions@), self.imports@.map_values(|m: ModuleAlias| m@))
    }
}

/// Entries keyed by (file, name), with the compiled name as value.
pub type ResolverEntries = Seq<((Seq<char>, Seq<char>), Seq<char>)>;

/// A file's name-to-target mapping keyed by the file.
pub open spec fn keyed(module: Seq<char>, mapping: Seq<(Seq<char>, Seq<char>)>) -> ResolverEntries {
    mapping.map_values(|p: (Seq<char>, Seq<char>)| ((module, p.0), p.1))
}

/// The resolver built from `files`, in order: for each file its functions
/// and then its types; the first file that imports itself or sees a name
/// defined twice is an error.
pub open spec fn resolve_files(files: Seq<FileSymbolsModel>) -> Result<(ResolverEntries, ResolverEntries), Seq<char>>
    decreases files.len(),
{
    if files.len() == 0 {
        Ok((Seq::empty(), Seq::empty()))
    } else {
        match resolve_files(files.drop_last()) {
            Err(e) => Err(e),
            Ok((types, functions)) => {
                let f = files.last();
                if f.3.contains(f.0) {
                    Err("Module "@ + quoted(f.0) + " is importing itself!"@)
                } else {
                match first_repeat(f.2) {
                    Some(k) => Err("Function "@ + f.2[k].1 + " defined twice in "@ + f.0),
                    None => match first_repeat(f.1) {
                        Some(k) => Err("Type "@ + f.1[k].1 + " defined twice in "@ + f.0),
                        None => Ok(
                            (
                                types + keyed(f.0, origins_model(f.1)),
                                functions + keyed(f.0, origins_model(f.2)),
                            ),
                        ),
                    },
                }
                }
            },
        }
    }
}

/// The files' symbols as plain values.
pub open spec fn files_symbols_model(files: Seq<FileSymbols>) -> Seq<FileSymbolsModel> {
    files.map_values(|f: FileSymbols| f@)
}

/// Where the names visible in each file lead: keyed by the file and the
/// name, the compiled name of the symbol (types and functions apart).
pub struct NameResolver {
    typenames: Vec<((ModuleAlias, String), String)>,
    functions: Vec<((ModuleAlias, String), String)>,
}

/// Resolver entries as plain values.
pub open spec fn entries_model(v: Seq<((ModuleAlias, String), String)>) -> ResolverEntries {
    v.map_values(|p: ((ModuleAlias, String), String)| ((p.0.0@, p.0.1@), p.1@))
}

impl View for NameResolver {
    type V = (ResolverEntries, ResolverEntries);

    closed spec fn view(&self) -> (ResolverEntries, ResolverEntries) {
        (entries_model(self.typenames@), entries_model(self.functions@))
    }
}

/// `Function <name> defined twice in <module>`, or the same for a type.
fn defined_twice(function: bool, name: &String, module: &ModuleAlias) -> (r: String)
    ensures
        r@ == (if function { "Function "@ } else { "Type "@ }) + name@ + " defined twice in "@ + module@,
{
    let mut out = if function {
        chars_of("Function ")
    } else {
        chars_of("Type ")
    };
    push_str(&mut out, name.as_str());
    push_str(&mut out, " defined twice in ");
    let m = module.as_string();
    push_str(&mut out, m.as_str());
    string_from_chars(out.as_slice())
}

/// `Module "<module>" is importing itself!`
fn importing_itself(module: &ModuleAlias) -> (r: String)
    ensures
        r@ == "Module "@ + quoted(module@) + " is importing itself!"@,
{
    let mut out = chars_of("Module \"");
    let m = module.as_string();
    push_escaped(&mut out, m.as_str());
    push_str(&mut out, "\" is importing itself!");
    proof {
        reveal_strlit("Module \"");
        reveal_strlit("\" is importing itself!");
        reveal_strlit("Module ");
        reveal_strlit(" is importing itself!");
        assert(out@ =~= "Module "@ + quoted(module@) + " is importing itself!"@);
    }
    string_from_chars(out.as_slice())
}

/// Whether `module` is among `imports`.
fn imports_itself(module: &ModuleAlias, imports: &Vec<ModuleAlias>) -> (r: bool)
    ensures
        r == imports@.map_values(|m: ModuleAlias| m@).contains(module@),
{
    let ghost ms = imports@.map_values(|m: ModuleAlias| m@);
    let mut i: usize = 0;
    while i < imports.len()
        invariant
            i <= imports@.len(),
            ms == imports@.map_values(|m: ModuleAlias| m@),
            forall|j: int| 0 <= j < i ==> ms[j] != module@,
        decreases imports@.len() - i,
    {
        if imports[i].same_as(module) {
            assert(ms[i as int] == module@);
            return true;
        }
        i = i + 1;
    }
    false
}

/// Appends the mapping of `module`, keyed by it, to `entries`.
fn add_keyed(entries: &mut Vec<((ModuleAlias, String), String)>, module: &ModuleAlias, mapping: &Vec<(String, String)>)
    ensures
        entries_model(final(entries)@) == entries_model(old(entries)@) + keyed(
            module@,
            mapping@.map_values(|p: (String, String)| (p.0@, p.1@)),
        ),
{
    let ghost start = entries_model(entries@);
    let ghost m = mapping@.map_values(|p: (String, String)| (p.0@, p.1@));
    let mut k: usize = 0;
    while k < mapping.len()
        invariant
            k <= mapping@.len(),
            m == mapping@.map_values(|p: (String, String)| (p.0@, p.1@)),
            entries_model(entries@) == start + keyed(module@, m.take(k as int)),
        decreases mapping@.len() - k,
    {
        let ghost before = entries_model(entries@);
        entries.push(((module.clone_alias(), mapping[k].0.clone()), mapping[k].1.clone()));
        proof {
            assert(m.take(k + 1) =~= m.take(k as int).push(m[k as int]));
            assert(keyed(module@, m.take(k + 1)) =~= keyed(module@, m.take(k as int)).push(
                ((module@, m[k as int].0), m[k as int].1),
            ));
            assert(entries_model(entries@) =~= before.push(((module@, m[k as int].0), m[k as int].1)));
        }
        k = k + 1;
    }
    assert(m.take(m.len() as int) =~= m);
}

impl NameResolver {
    /// The resolver of a program's files: per file, each visible function
    /// and type name leads to the compiled name of its symbol. A file that
    /// imports its own module, or sees one name twice, is refused: the
    /// result is an error whose message names the module (and the name);
    /// the self-import is checked first, then functions, then types. No
    /// input makes it panic.
    pub fn create(files: &Vec<FileSymbols>) -> (r: Result<NameResolver, String>)
        ensures
            match resolve_files(files_symbols_model(files@)) {
                Ok(m) => r matches Ok(x) && x@ == m,
                Err(e) => r matches Err(x) && x@ == e,
            },
    {
        let ghost fs = files_symbols_model(files@);
        let mut resolver = NameResolver { typenames: Vec::new(), functions: Vec::new() };
        let mut i: usize = 0;
        assert(fs.take(0) =~= Seq::<FileSymbolsModel>::empty());
        assert(entries_model(resolver.typenames@) =~= Seq::<((Seq<char>, Seq<char>), Seq<char>)>::empty());
        assert(entries_model(resolver.functions@) =~= Seq::<((Seq<char>, Seq<char>), Seq<char>)>::empty());
        while i < files.len()
            invariant
                i <= files@.len(),
                fs == files_symbols_model(files@),
                resolve_files(fs.take(i as int)) == Ok::<(ResolverEntries, ResolverEntries), Seq<char>>(resolver@),
            decreases files@.len() - i,
        {
            let file = &files[i];
            proof {
                assert(fs.take(i + 1).drop_last() =~= fs.take(i as int));
                assert(fs.take(i + 1).last() == file@);
                assert(fs.take(fs.len() as int) =~= fs);
            }
            if imports_itself(&file.module, &file.imports) {
                let message = importing_itself(&file.module);
                proof {
                    assert(resolve_files(fs.take(i + 1)) == Err::<(ResolverEntries, ResolverEntries), Seq<char>>(
                        message@,
                    ));
                    lemma_resolve_stays(fs, i + 1, fs.len() as int);
                }
                return Err(message);
            }
            let functions = match get_origins(&file.functions) {
                Ok(m) => m,
                Err(name) => {
                    let message = defined_twice(true, &name, &file.module);
                    proof {
                        assert(resolve_files(fs.take(i + 1)) == Err::<(ResolverEntries, ResolverEntries), Seq<char>>(
                            message@,
                        ));
                        lemma_resolve_stays(fs, i + 1, fs.len() as int);
                    }
                    return Err(message);
                },
            };
            let typenames = match get_origins(&file.typenames) {
                Ok(m) => m,
                Err(name) => {
                    let message = defined_twice(false, &name, &file.module);
                    proof {
                        assert(resolve_files(fs.take(i + 1)) == Err::<(ResolverEntries, ResolverEntries), Seq<char>>(
                            message@,
                        ));
                        lemma_resolve_stays(fs, i + 1, fs.len() as int);
                    }
                    return Err(message);
                },
            };
            add_keyed(&mut resolver.functions, &file.module, &functions);
            add_keyed(&mut resolver.typenames, &file.module, &typenames);
            i = i + 1;
        }
        assert(fs.take(fs.len() as int) =~= fs);
        Ok(resolver)
    }
}

proof fn lemma_resolve_stays(files: Seq<FileSymbolsModel>, i: int, j: int)
    requires
        0 <= i <= j <= files.len(),
        resolve_files(files.take(i)) is Err,
    ensures
        resolve_files(files.take(j)) == resolve_files(files.take(i)),
    decreases j - i,
{
    if j > i {
        lemma_resolve_stays(files, i, j - 1);
        assert(files.take(j).drop_last() =~= files.take(j - 1));
    }
}

} // verus!
