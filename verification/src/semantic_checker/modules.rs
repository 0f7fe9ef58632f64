//! What each file of a program sees, and the checks on a program's modules:
//! every imported name is defined by the module it is imported from, and no
//! class declares a method twice.
use vstd::prelude::*;

use crate::alias::{join_with_dots, ModuleAlias};
use crate::ast::parsed::{strings_view, ClassDecl, ClassModel, FileAst, FileModel, FunctionModel, ImportModel};
use crate::loader::{imports_dot_free, FrisbeeModule, WholeProgram};
use crate::semantic_checker::resolvers::{
    files_symbols_model, push_str, resolve_files, symbols_model, FileSymbols, FileSymbolsModel, NameResolver,
};
use crate::text::{chars_of, same_text, string_from_chars};

verus! {

/// The parts of `s` one after another.
pub open spec fn flatten<A>(s: Seq<Seq<A>>) -> Seq<A>
    decreases s.len(),
{
    if s.len() == 0 {
        Seq::empty()
    } else {
        flatten(s.drop_last()) + s.last()
    }
}

proof fn lemma_flatten_step<A>(s: Seq<Seq<A>>, i: int)
    requires
        0 <= i < s.len(),
    ensures
        flatten(s.take(i + 1)) == flatten(s.take(i)) + s[i],
{
    assert(s.take(i + 1).drop_last() =~= s.take(i));
}

proof fn lemma_flatten_prefix<A>(s: Seq<Seq<A>>, i: int)
    requires
        0 <= i <= s.len(),
    ensures
        flatten(s.take(i)).len() <= flatten(s).len(),
        forall|k: int| 0 <= k < flatten(s.take(i)).len() ==> #[trigger] flatten(s)[k] == flatten(s.take(i))[k],
    decreases s.len() - i,
{
    if i == s.len() {
        assert(s.take(i) =~= s);
    } else {
        lemma_flatten_prefix(s, i + 1);
        lemma_flatten_step(s, i);
    }
}

/// The names of the types a file sees, each with the module that defines
/// it: its own classes, then those it imports.
pub open spec fn visible_types(module: Seq<char>, f: FileModel) -> Seq<(Seq<char>, Seq<char>)> {
    f.types.map_values(|c: ClassModel| (module, c.name)) + flatten(
        f.imports.map_values(|d: ImportModel| d.typenames.map_values(|n: Seq<char>| (join_with_dots(d.module), n))),
    )
}

/// The names of the functions a file sees, each with the module that
/// defines it: its own functions, then those it imports.
pub open spec fn visible_functions(module: Seq<char>, f: FileModel) -> Seq<(Seq<char>, Seq<char>)> {
    f.functions.map_values(|g: FunctionModel| (module, g.name)) + flatten(
        f.imports.map_values(|d: ImportModel| d.functions.map_values(|n: Seq<char>| (join_with_dots(d.module), n))),
    )
}

/// What the file of `module` sees: the names above and the modules it
/// imports.
pub open spec fn file_symbols_model(module: Seq<char>, f: FileModel) -> FileSymbolsModel {
    (
        module,
        visible_types(module, f),
        visible_functions(module, f),
        f.imports.map_values(|d: ImportModel| join_with_dots(d.module)),
    )
}

fn push_named(v: &mut Vec<(ModuleAlias, String)>, alias: &ModuleAlias, names: &Vec<String>)
    ensures
        symbols_model(final(v)@) == symbols_model(old(v)@) + strings_view(names@).map_values(
            |n: Seq<char>| (alias@, n),
        ),
{
    let ghost start = symbols_model(v@);
    let ghost want = strings_view(names@).map_values(|n: Seq<char>| (alias@, n));
    let mut i: usize = 0;
    while i < names.len()
        invariant
            i <= names@.len(),
            want == strings_view(names@).map_values(|n: Seq<char>| (alias@, n)),
            symbols_model(v@) == start + want.take(i as int),
        decreases names@.len() - i,
    {
        let ghost before = v@;
        v.push((alias.clone_alias(), names[i].clone()));
        assert(symbols_model(v@) =~= symbols_model(before).push((alias@, names@[i as int]@)));
        assert(want.take(i + 1) =~= want.take(i as int).push(want[i as int]));
        i = i + 1;
    }
    assert(want.take(want.len() as int) =~= want);
}

/// What the file of `m` sees.
pub fn file_symbols(m: &FrisbeeModule) -> (r: FileSymbols)
    requires
        imports_dot_free(m.ast@),
    ensures
        r@ == file_symbols_model(m.alias@, m.ast@),
{
    let ghost f = m.ast@;
    let ghost module = m.alias@;
    let mut typenames: Vec<(ModuleAlias, String)> = Vec::new();
    let mut functions: Vec<(ModuleAlias, String)> = Vec::new();
    let mut imports: Vec<ModuleAlias> = Vec::new();
    let mut i: usize = 0;
    while i < m.ast.types.len()
        invariant
            i <= m.ast.types@.len(),
            f == m.ast@,
            module == m.alias@,
            symbols_model(typenames@) == f.types.map_values(|c: ClassModel| (module, c.name)).take(i as int),
        decreases m.ast.types@.len() - i,
    {
        let ghost before = typenames@;
        typenames.push((m.alias.clone_alias(), m.ast.types[i].name.clone()));
        assert(f.types[i as int] == m.ast.types@[i as int]@);
        assert(symbols_model(typenames@) =~= symbols_model(before).push((module, f.types[i as int].name)));
        assert(symbols_model(typenames@) =~= f.types.map_values(|c: ClassModel| (module, c.name)).take(i + 1));
        i = i + 1;
    }
    let mut i: usize = 0;
    while i < m.ast.functions.len()
        invariant
            i <= m.ast.functions@.len(),
            f == m.ast@,
            module == m.alias@,
            symbols_model(typenames@) == f.types.map_values(|c: ClassModel| (module, c.name)),
            symbols_model(functions@) == f.functions.map_values(|g: FunctionModel| (module, g.name)).take(i as int),
        decreases m.ast.functions@.len() - i,
    {
        let ghost before = functions@;
        functions.push((m.alias.clone_alias(), m.ast.functions[i].name.clone()));
        assert(f.functions[i as int] == m.ast.functions@[i as int]@);
        assert(symbols_model(functions@) =~= symbols_model(before).push((module, f.functions[i as int].name)));
        assert(symbols_model(functions@) =~= f.functions.map_values(|g: FunctionModel| (module, g.name)).take(
            i + 1,
        ));
        i = i + 1;
    }
    assert(f.types.map_values(|c: ClassModel| (module, c.name)).take(f.types.len() as int) =~= f.types.map_values(
        |c: ClassModel| (module, c.name),
    ));
    assert(f.functions.map_values(|g: FunctionModel| (module, g.name)).take(f.functions.len() as int)
        =~= f.functions.map_values(|g: FunctionModel| (module, g.name)));
    let ghost tparts = f.imports.map_values(
        |d: ImportModel| d.typenames.map_values(|n: Seq<char>| (join_with_dots(d.module), n)),
    );
    let ghost fparts = f.imports.map_values(
        |d: ImportModel| d.functions.map_values(|n: Seq<char>| (join_with_dots(d.module), n)),
    );
    let ghost own_types = symbols_model(typenames@);
    let ghost own_functions = symbols_model(functions@);
    let mut k: usize = 0;
    assert(flatten(tparts.take(0)) =~= Seq::<(Seq<char>, Seq<char>)>::empty());
    assert(flatten(fparts.take(0)) =~= Seq::<(Seq<char>, Seq<char>)>::empty());
    while k < m.ast.imports.len()
        invariant
            k <= m.ast.imports@.len(),
            f == m.ast@,
            imports_dot_free(f),
            tparts.len() == f.imports.len(),
            fparts.len() == f.imports.len(),
            tparts == f.imports.map_values(
                |d: ImportModel| d.typenames.map_values(|n: Seq<char>| (join_with_dots(d.module), n)),
            ),
            fparts == f.imports.map_values(
                |d: ImportModel| d.functions.map_values(|n: Seq<char>| (join_with_dots(d.module), n)),
            ),
            symbols_model(typenames@) == own_types + flatten(tparts.take(k as int)),
            symbols_model(functions@) == own_functions + flatten(fparts.take(k as int)),
            imports@.map_values(|a: ModuleAlias| a@) == f.imports.map_values(
                |d: ImportModel| join_with_dots(d.module),
            ).take(k as int),
        decreases m.ast.imports@.len() - k,
    {
        let d = &m.ast.imports[k];
        assert(d@ == f.imports[k as int]);
        assert forall|b: int| 0 <= b < d.module@.len() implies crate::alias::has_no_dot(#[trigger] d.module@[b]@) by {
            assert(d.module@[b]@ == f.imports[k as int].module[b]);
        }
        let alias = ModuleAlias::new(d.module.as_slice());
        assert(alias@ == join_with_dots(f.imports[k as int].module));
        push_named(&mut typenames, &alias, &d.typenames);
        push_named(&mut functions, &alias, &d.functions);
        proof {
            lemma_flatten_step(tparts, k as int);
            lemma_flatten_step(fparts, k as int);
            assert(tparts[k as int] =~= strings_view(d.typenames@).map_values(|n: Seq<char>| (alias@, n)));
            assert(fparts[k as int] =~= strings_view(d.functions@).map_values(|n: Seq<char>| (alias@, n)));
        }
        let ghost before = imports@;
        imports.push(alias);
        assert(imports@.map_values(|a: ModuleAlias| a@) =~= before.map_values(|a: ModuleAlias| a@).push(
            join_with_dots(f.imports[k as int].module),
        ));
        assert(imports@.map_values(|a: ModuleAlias| a@) =~= f.imports.map_values(
            |d: ImportModel| join_with_dots(d.module),
        ).take(k + 1));
        k = k + 1;
    }
    assert(tparts.take(tparts.len() as int) =~= tparts);
    assert(fparts.take(fparts.len() as int) =~= fparts);
    assert(f.imports.map_values(|d: ImportModel| join_with_dots(d.module)).take(f.imports.len() as int)
        =~= f.imports.map_values(|d: ImportModel| join_with_dots(d.module)));
    FileSymbols { module: m.alias.clone_alias(), typenames, functions, imports }
}

/// The first problem of a list, if there is one.
pub open spec fn first_of(s: Seq<Seq<char>>) -> Option<Seq<char>> {
    if s.len() > 0 {
        Some(s[0])
    } else {
        None
    }
}

/// Where the parts before the `i`-th hold no problem, the first problem
/// of all is the first of the `i`-th part.
proof fn lemma_first_at(s: Seq<Seq<Seq<char>>>, i: int)
    requires
        0 <= i < s.len(),
        flatten(s.take(i)).len() == 0,
        s[i].len() > 0,
    ensures
        first_of(flatten(s)) == Some(s[i][0]),
{
    lemma_flatten_step(s, i);
    lemma_flatten_prefix(s, i + 1);
    assert(flatten(s.take(i + 1))[0] == s[i][0]);
}

proof fn lemma_none_so_far(s: Seq<Seq<Seq<char>>>, i: int)
    requires
        0 <= i < s.len(),
        flatten(s.take(i)).len() == 0,
        s[i].len() == 0,
    ensures
        flatten(s.take(i + 1)).len() == 0,
{
    lemma_flatten_step(s, i);
}

proof fn lemma_none_at_all(s: Seq<Seq<Seq<char>>>)
    requires
        flatten(s.take(s.len() as int)).len() == 0,
    ensures
        first_of(flatten(s)) is None,
{
    assert(s.take(s.len() as int) =~= s);
}

/// `<Type|Function> <name> is not defined in <module>`
pub open spec fn missing_message(function: bool, name: Seq<char>, module: Seq<char>) -> Seq<char> {
    (if function { "Function "@ } else { "Type "@ }) + name + " is not defined in "@ + module
}

/// `Method <name> defined twice in <type>`
pub open spec fn method_twice_message(name: Seq<char>, typename: Seq<char>) -> Seq<char> {
    "Method "@ + name + " defined twice in "@ + typename
}

/// The file defines a function (or a type) named `name`.
pub open spec fn defines(f: FileModel, name: Seq<char>, function: bool) -> bool {
    if function {
        exists|i: int| 0 <= i < f.functions.len() && #[trigger] f.functions[i].name == name
    } else {
        exists|i: int| 0 <= i < f.types.len() && #[trigger] f.types[i].name == name
    }
}

/// The file of the first module named `alias`.
pub open spec fn module_file(modules: Seq<FrisbeeModule>, alias: Seq<char>) -> Option<FileModel>
    decreases modules.len(),
{
    if modules.len() == 0 {
        None
    } else {
        match module_file(modules.drop_last(), alias) {
            Some(f) => Some(f),
            None => if modules.last().alias@ == alias {
                Some(modules.last().ast@)
            } else {
                None
            },
        }
    }
}

/// Per imported name, the problem it makes: none where the module's file
/// defines it.
pub open spec fn missing_parts(names: Seq<Seq<char>>, target: Option<FileModel>, module: Seq<char>, function: bool) -> Seq<Seq<Seq<char>>> {
    names.map_values(
        |n: Seq<char>|
            if target matches Some(f) && defines(f, n, function) {
                Seq::empty()
            } else {
                seq![missing_message(function, n, module)]
            },
    )
}

/// The problems of an import: its types, then its functions, that its
/// module does not define.
pub open spec fn import_problems(modules: Seq<FrisbeeModule>, d: ImportModel) -> Seq<Seq<char>> {
    let alias = join_with_dots(d.module);
    let target = module_file(modules, alias);
    flatten(missing_parts(d.typenames, target, alias, false)) + flatten(missing_parts(d.functions, target, alias, true))
}

/// Per method of a class, the problem it makes: one where an earlier
/// method has its name.
pub open spec fn method_parts(c: ClassModel) -> Seq<Seq<Seq<char>>> {
    Seq::new(
        c.methods.len(),
        |i: int|
            if c.methods.take(i).map_values(|m: FunctionModel| m.name).contains(c.methods[i].name) {
                seq![method_twice_message(c.methods[i].name, c.name)]
            } else {
                Seq::empty()
            },
    )
}

/// The problems of a file: its classes' methods declared twice, then the
/// names it imports that are not defined.
#[verifier::opaque]
pub open spec fn file_problems(modules: Seq<FrisbeeModule>, f: FileModel) -> Seq<Seq<char>> {
    flatten(f.types.map_values(|c: ClassModel| flatten(method_parts(c)))) + flatten(
        f.imports.map_values(|d: ImportModel| import_problems(modules, d)),
    )
}

/// The problems of a program's modules, file by file.
pub open spec fn program_problems(modules: Seq<FrisbeeModule>) -> Seq<Seq<char>> {
    flatten(modules.map_values(|m: FrisbeeModule| file_problems(modules, m.ast@)))
}

proof fn lemma_first_concat(a: Seq<Seq<char>>, b: Seq<Seq<char>>)
    ensures
        first_of(a + b) == (if a.len() > 0 { first_of(a) } else { first_of(b) }),
{
    if a.len() == 0 {
        assert(a + b =~= b);
    }
}

fn join4(a: &str, b: &String, c: &str, d: &String) -> (r: String)
    ensures
        r@ == a@ + b@ + c@ + d@,
{
    let mut out = chars_of(a);
    push_str(&mut out, b.as_str());
    push_str(&mut out, c);
    push_str(&mut out, d.as_str());
    string_from_chars(out.as_slice())
}

fn defines_name(f: &FileAst, name: &String, function: bool) -> (r: bool)
    ensures
        r == defines(f@, name@, function),
{
    let ghost m = f@;
    if function {
        let mut i: usize = 0;
        while i < f.functions.len()
            invariant
                i <= f.functions@.len(),
                m == f@,
                function,
                forall|j: int| 0 <= j < i ==> m.functions[j].name != name@,
            decreases f.functions@.len() - i,
        {
            assert(m.functions[i as int] == f.functions@[i as int]@);
            if same_text(f.functions[i].name.as_str(), name.as_str()) {
                assert(0 <= i < m.functions.len() && m.functions[i as int].name == name@);
                assert(defines(m, name@, function));
                return true;
            }
            i = i + 1;
        }
        false
    } else {
        let mut i: usize = 0;
        while i < f.types.len()
            invariant
                i <= f.types@.len(),
                m == f@,
                !function,
                forall|j: int| 0 <= j < i ==> m.types[j].name != name@,
            decreases f.types@.len() - i,
        {
            assert(m.types[i as int] == f.types@[i as int]@);
            if same_text(f.types[i].name.as_str(), name.as_str()) {
                assert(0 <= i < m.types.len() && m.types[i as int].name == name@);
                assert(defines(m, name@, function));
                return true;
            }
            i = i + 1;
        }
        false
    }
}

proof fn lemma_module_file_prefix(s: Seq<FrisbeeModule>, i: int, alias: Seq<char>)
    requires
        0 <= i <= s.len(),
        module_file(s.take(i), alias) is Some,
    ensures
        module_file(s, alias) == module_file(s.take(i), alias),
    decreases s.len(),
{
    if i < s.len() {
        assert(s.drop_last().take(i) =~= s.take(i));
        lemma_module_file_prefix(s.drop_last(), i, alias);
    } else {
        assert(s.take(i) =~= s);
    }
}

fn find_module(modules: &Vec<FrisbeeModule>, alias: &ModuleAlias) -> (r: Option<usize>)
    ensures
        match module_file(modules@, alias@) {
            Some(f) => r matches Some(i) && i < modules@.len() && modules@[i as int].ast@ == f,
            None => r is None,
        },
{
    let mut i: usize = 0;
    while i < modules.len()
        invariant
            i <= modules@.len(),
            module_file(modules@.take(i as int), alias@) is None,
        decreases modules@.len() - i,
    {
        assert(modules@.take(i + 1).drop_last() =~= modules@.take(i as int));
        if modules[i].alias.same_as(alias) {
            proof {
                lemma_module_file_prefix(modules@, i + 1, alias@);
            }
            return Some(i);
        }
        i = i + 1;
    }
    assert(modules@.take(modules@.len() as int) =~= modules@);
    None
}

/// The first imported name of `names` that `target` does not define.
fn first_missing(names: &Vec<String>, target: Option<&FileAst>, module: &ModuleAlias, function: bool) -> (r: Option<String>)
    ensures
        ({
            let t = match target {
                Some(f) => Some(f@),
                None => None,
            };
            match first_of(flatten(missing_parts(strings_view(names@), t, module@, function))) {
                Some(m) => r matches Some(x) && x@ == m,
                None => r is None,
            }
        }),
{
    let ghost t = match target {
        Some(f) => Some(f@),
        None => None,
    };
    let ghost parts = missing_parts(strings_view(names@), t, module@, function);
    let mut i: usize = 0;
    assert(flatten(parts.take(0)) =~= Seq::<Seq<char>>::empty());
    while i < names.len()
        invariant
            i <= names@.len(),
            parts == missing_parts(strings_view(names@), t, module@, function),
            t == (match target {
                Some(f) => Some(f@),
                None => None::<FileModel>,
            }),
            flatten(parts.take(i as int)).len() == 0,
        decreases names@.len() - i,
    {
        let defined = match target {
            Some(f) => defines_name(f, &names[i], function),
            None => false,
        };
        if !defined {
            let m = module.as_string();
            let message = if function {
                join4("Function ", &names[i], " is not defined in ", &m)
            } else {
                join4("Type ", &names[i], " is not defined in ", &m)
            };
            proof {
                lemma_first_at(parts, i as int);
            }
            return Some(message);
        }
        proof {
            lemma_none_so_far(parts, i as int);
        }
        i = i + 1;
    }
    proof {
        lemma_none_at_all(parts);
    }
    None
}

fn named_before(c: &ClassDecl, i: usize) -> (r: bool)
    requires
        i < c.methods@.len(),
    ensures
        r == c@.methods.take(i as int).map_values(|m: FunctionModel| m.name).contains(c@.methods[i as int].name),
{
    let ghost names = c@.methods.take(i as int).map_values(|m: FunctionModel| m.name);
    let ghost name = c@.methods[i as int].name;
    assert(c@.methods[i as int] == c.methods@[i as int]@);
    let mut j: usize = 0;
    while j < i
        invariant
            j <= i < c.methods@.len(),
            names == c@.methods.take(i as int).map_values(|m: FunctionModel| m.name),
            name == c.methods@[i as int]@.name,
            forall|k: int| 0 <= k < j ==> names[k] != name,
        decreases i - j,
    {
        assert(names[j as int] == c.methods@[j as int]@.name);
        if same_text(c.methods[j].name.as_str(), c.methods[i].name.as_str()) {
            return true;
        }
        j = j + 1;
    }
    assert(!names.contains(name)) by {
        if names.contains(name) {
            let k = choose|k: int| 0 <= k < names.len() && names[k] == name;
        }
    }
    false
}

/// The first method of `c` declared a second time.
fn first_repeated_method(c: &ClassDecl) -> (r: Option<String>)
    ensures
        match first_of(flatten(method_parts(c@))) {
            Some(m) => r matches Some(x) && x@ == m,
            None => r is None,
        },
{
    let ghost parts = method_parts(c@);
    let mut i: usize = 0;
    assert(flatten(parts.take(0)) =~= Seq::<Seq<char>>::empty());
    while i < c.methods.len()
        invariant
            i <= c.methods@.len(),
            parts == method_parts(c@),
            flatten(parts.take(i as int)).len() == 0,
        decreases c.methods@.len() - i,
    {
        if named_before(c, i) {
            let message = join4("Method ", &c.methods[i].name, " defined twice in ", &c.name);
            proof {
                assert(c@.methods[i as int] == c.methods@[i as int]@);
                lemma_first_at(parts, i as int);
            }
            return Some(message);
        }
        proof {
            lemma_none_so_far(parts, i as int);
        }
        i = i + 1;
    }
    proof {
        lemma_none_at_all(parts);
    }
    None
}

/// The first method declared twice in a class of `f`.
fn first_class_problem(f: &FileAst) -> (r: Option<String>)
    ensures
        match first_of(flatten(f@.types.map_values(|c: ClassModel| flatten(method_parts(c))))) {
            Some(m) => r matches Some(x) && x@ == m,
            None => r is None,
        },
{
    let ghost parts = f@.types.map_values(|c: ClassModel| flatten(method_parts(c)));
    let mut i: usize = 0;
    assert(flatten(parts.take(0)) =~= Seq::<Seq<char>>::empty());
    while i < f.types.len()
        invariant
            i <= f.types@.len(),
            parts == f@.types.map_values(|c: ClassModel| flatten(method_parts(c))),
            flatten(parts.take(i as int)).len() == 0,
        decreases f.types@.len() - i,
    {
        assert(parts[i as int] == flatten(method_parts(f.types@[i as int]@)));
        match first_repeated_method(&f.types[i]) {
            Some(message) => {
                proof {
                    lemma_first_at(parts, i as int);
                }
                return Some(message);
            },
            None => {
                proof {
                    lemma_none_so_far(parts, i as int);
                }
            },
        }
        i = i + 1;
    }
    proof {
        lemma_none_at_all(parts);
    }
    None
}

/// The first name that an import of `f` takes from a module that does not
/// define it.
fn first_import_problem(modules: &Vec<FrisbeeModule>, f: &FileAst) -> (r: Option<String>)
    requires
        imports_dot_free(f@),
    ensures
        match first_of(flatten(f@.imports.map_values(|d: ImportModel| import_problems(modules@, d)))) {
            Some(m) => r matches Some(x) && x@ == m,
            None => r is None,
        },
{
    let ghost parts = f@.imports.map_values(|d: ImportModel| import_problems(modules@, d));
    let mut i: usize = 0;
    assert(flatten(parts.take(0)) =~= Seq::<Seq<char>>::empty());
    while i < f.imports.len()
        invariant
            i <= f.imports@.len(),
            imports_dot_free(f@),
            parts == f@.imports.map_values(|d: ImportModel| import_problems(modules@, d)),
            flatten(parts.take(i as int)).len() == 0,
        decreases f.imports@.len() - i,
    {
        let d = &f.imports[i];
        assert(d@ == f@.imports[i as int]);
        assert forall|b: int| 0 <= b < d.module@.len() implies crate::alias::has_no_dot(#[trigger] d.module@[b]@) by {
            assert(d.module@[b]@ == f@.imports[i as int].module[b]);
        }
        let alias = ModuleAlias::new(d.module.as_slice());
        let target = match find_module(modules, &alias) {
            Some(k) => Some(&modules[k].ast),
            None => None,
        };
        let ghost t = match target {
            Some(x) => Some(x@),
            None => None::<FileModel>,
        };
        assert(t == module_file(modules@, alias@));
        let ghost a = flatten(missing_parts(d@.typenames, t, alias@, false));
        let ghost b = flatten(missing_parts(d@.functions, t, alias@, true));
        assert(parts[i as int] == a + b);
        proof {
            lemma_first_concat(a, b);
        }
        let problem = match first_missing(&d.typenames, target, &alias, false) {
            Some(m) => Some(m),
            None => first_missing(&d.functions, target, &alias, true),
        };
        match problem {
            Some(message) => {
                proof {
                    lemma_first_at(parts, i as int);
                }
                return Some(message);
            },
            None => {
                proof {
                    lemma_none_so_far(parts, i as int);
                }
            },
        }
        i = i + 1;
    }
    proof {
        lemma_none_at_all(parts);
    }
    None
}

/// What each file of a program sees, in the order the modules were loaded;
/// the first problem of the program's modules where there is one: file by
/// file, a method declared twice in a class, then an imported type or
/// function that its module does not define.
#[verifier::rlimit(30)]
pub fn program_symbols(wp: &WholeProgram) -> (r: Result<Vec<FileSymbols>, String>)
    requires
        forall|i: int| 0 <= i < wp.modules@.len() ==> imports_dot_free(#[trigger] wp.modules@[i].ast@),
    ensures
        match first_of(program_problems(wp.modules@)) {
            Some(m) => r matches Err(x) && x@ == m,
            None => r matches Ok(v) && v@.map_values(|s: FileSymbols| s@) == wp.modules@.map_values(
                |m: FrisbeeModule| file_symbols_model(m.alias@, m.ast@),
            ),
        },
{
    let ghost modules = wp.modules@;
    let ghost parts = modules.map_values(|m: FrisbeeModule| file_problems(modules, m.ast@));
    let ghost want = modules.map_values(|m: FrisbeeModule| file_symbols_model(m.alias@, m.ast@));
    let mut out: Vec<FileSymbols> = Vec::new();
    let mut i: usize = 0;
    assert(flatten(parts.take(0)) =~= Seq::<Seq<char>>::empty());
    while i < wp.modules.len()
        invariant
            i <= wp.modules@.len(),
            modules == wp.modules@,
            forall|k: int| 0 <= k < wp.modules@.len() ==> imports_dot_free(#[trigger] wp.modules@[k].ast@),
            parts == modules.map_values(|m: FrisbeeModule| file_problems(modules, m.ast@)),
            want == modules.map_values(|m: FrisbeeModule| file_symbols_model(m.alias@, m.ast@)),
            flatten(parts.take(i as int)).len() == 0,
            out@.map_values(|s: FileSymbols| s@) == want.take(i as int),
        decreases wp.modules@.len() - i,
    {
        let m = &wp.modules[i];
        let ghost a = flatten(m.ast@.types.map_values(|c: ClassModel| flatten(method_parts(c))));
        let ghost b = flatten(m.ast@.imports.map_values(|d: ImportModel| import_problems(modules, d)));
        assert(parts[i as int] == a + b) by {
            reveal(file_problems);
        }
        proof {
            lemma_first_concat(a, b);
        }
        let problem = match first_class_problem(&m.ast) {
            Some(x) => Some(x),
            None => first_import_problem(&wp.modules, &m.ast),
        };
        match problem {
            Some(message) => {
                proof {
                    lemma_first_at(parts, i as int);
                }
                return Err(message);
            },
            None => {
                proof {
                    lemma_none_so_far(parts, i as int);
                }
            },
        }
        let ghost before = out@;
        out.push(file_symbols(m));
        assert(out@.map_values(|s: FileSymbols| s@) =~= before.map_values(|s: FileSymbols| s@).push(want[i as int]));
        assert(want.take(i + 1) =~= want.take(i as int).push(want[i as int]));
        i = i + 1;
    }
    proof {
        lemma_none_at_all(parts);
    }
    assert(want.take(want.len() as int) =~= want);
    Ok(out)
}

impl NameResolver {
    /// The resolver of a whole program: its modules are checked first (see
    /// `program_symbols`), then what each file sees is resolved as `create`
    /// does.
    pub fn for_program(wp: &WholeProgram) -> (r: Result<NameResolver, String>)
        requires
            forall|i: int| 0 <= i < wp.modules@.len() ==> imports_dot_free(#[trigger] wp.modules@[i].ast@),
        ensures
            match first_of(program_problems(wp.modules@)) {
                Some(m) => r matches Err(x) && x@ == m,
                None => match resolve_files(
                    wp.modules@.map_values(|m: FrisbeeModule| file_symbols_model(m.alias@, m.ast@)),
                ) {
                    Ok(v) => r matches Ok(x) && x@ == v,
                    Err(e) => r matches Err(x) && x@ == e,
                },
            },
    {
        let files = program_symbols(wp)?;
        assert(files_symbols_model(files@) == files@.map_values(|s: FileSymbols| s@));
        NameResolver::create(&files)
    }
}

} // verus!
