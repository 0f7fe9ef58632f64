//! Where module sources come from, and the steps of loading a program's
//! modules: the caller fetches each module's text, the library decides what
//! to load next and records what was loaded.
use vstd::prelude::*;

use vstd::utf8::encode_utf8;

use crate::alias::{has_no_dot, join_with_dots, ModuleAlias};
use crate::ast::parsed::{strings_view, FileAst, FileModel};
use crate::parsing::declarations::{p_file, parse};
use crate::parsing::parser::{PErr, ParseError};
use crate::parsing::scanner::{scan, scan_model, ScanningError};

verus! {

/// A source of module texts: the text of a module, or why it cannot be had.
pub trait FrisbeeModuleLoader {
    fn load_module(&self, module: &ModuleAlias) -> Result<String, String>;
}

/// Why a module's text could not be turned into a syntax tree.
#[derive(Debug)]
pub enum LoadError {
    /// The text does not scan.
    Scanning(ScanningError),
    /// The tokens do not parse.
    Parsing(ParseError),
    /// The text cannot be scanned at all: it is empty, holds an integer
    /// literal beyond 64 bits, or is too long to index.
    Unscannable,
}

/// A load error as plain values.
pub ghost enum LoadErrorModel {
    Scanning(Seq<char>, int),
    Parsing(PErr),
    Unscannable,
}

impl View for LoadError {
    type V = LoadErrorModel;

    open spec fn view(&self) -> LoadErrorModel {
        match self {
            LoadError::Scanning((m, p)) => LoadErrorModel::Scanning(m@, *p as int),
            LoadError::Parsing(e) => LoadErrorModel::Parsing(e@),
            LoadError::Unscannable => LoadErrorModel::Unscannable,
        }
    }
}

/// The syntax tree of a module's text, or why there is none: the text is
/// scanned, and where scanning went through, its tokens are parsed.
pub open spec fn parsed_contents(text: Seq<char>) -> Result<FileModel, LoadErrorModel> {
    if text.len() + 3 > usize::MAX {
        Err(LoadErrorModel::Unscannable)
    } else {
        match scan_model(text, encode_utf8(text).len() as int) {
            None => Err(LoadErrorModel::Unscannable),
            Some((tokens, status)) => match status {
                Err((m, p)) => Err(LoadErrorModel::Scanning(m, p)),
                Ok(()) => if tokens.len() >= usize::MAX {
                    Err(LoadErrorModel::Unscannable)
                } else {
                    match p_file(tokens) {
                        Ok((f, _)) => Ok(f),
                        Err(e) => Err(LoadErrorModel::Parsing(e)),
                    }
                },
            },
        }
    }
}

/// Scans and parses a module's text (see `parsed_contents`).
#[verifier::rlimit(50)]
pub fn parse_contents(contents: &str) -> (r: Result<FileAst, LoadError>)
    ensures
        match parsed_contents(contents@) {
            Ok(f) => r matches Ok(x) && x@ == f,
            Err(e) => r matches Err(x) && x@ == e,
        },
{
    let (tokens, status) = match scan(contents) {
        Some(r) => r,
        None => {
            return Err(LoadError::Unscannable);
        },
    };
    match status {
        Err(e) => Err(LoadError::Scanning(e)),
        Ok(()) => {
            if tokens.len() == usize::MAX {
                return Err(LoadError::Unscannable);
            }
            match parse(tokens) {
                Ok(f) => Ok(f),
                Err(e) => Err(LoadError::Parsing(e)),
            }
        },
    }
}

/// A loaded module: its alias, its text and its syntax tree.
#[derive(Debug)]
pub struct FrisbeeModule {
    pub alias: ModuleAlias,
    pub contents: String,
    pub ast: FileAst,
}

/// The modules of a program, each once, in the order they were loaded.
#[derive(Debug)]
pub struct WholeProgram {
    pub main_module: ModuleAlias,
    pub modules: Vec<FrisbeeModule>,
}

/// The aliases of loaded modules.
pub open spec fn loaded_aliases(modules: Seq<FrisbeeModule>) -> Seq<Seq<char>> {
    modules.map_values(|m: FrisbeeModule| m.alias@)
}

/// The module that is loaded next from the stack `stack`: the top one not
/// loaded yet (the ones above it are dropped), with the stack left below it.
pub open spec fn next_to_load(stack: Seq<Seq<char>>, loaded: Seq<Seq<char>>) -> (Option<Seq<char>>, Seq<Seq<char>>)
    decreases stack.len(),
{
    if stack.len() == 0 {
        (None, stack)
    } else if loaded.contains(stack.last()) {
        next_to_load(stack.drop_last(), loaded)
    } else {
        (Some(stack.last()), stack.drop_last())
    }
}

/// The aliases of the modules that a file imports, in order.
pub open spec fn imported_aliases(f: FileModel) -> Seq<Seq<char>> {
    f.imports.map_values(|i: crate::ast::parsed::ImportModel| join_with_dots(i.module))
}

/// No part of any import path of `f` holds a dot.
pub open spec fn imports_dot_free(f: FileModel) -> bool {
    forall|i: int, j: int|
        0 <= i < f.imports.len() && 0 <= j < f.imports[i].module.len() ==> has_no_dot(
            #[trigger] f.imports[i].module[j],
        )
}

impl WholeProgram {
    /// A program with its main module and nothing loaded yet; the stack of
    /// modules to load holds the main module.
    pub fn new(main_module: &ModuleAlias) -> (r: (WholeProgram, Vec<ModuleAlias>))
        ensures
            r.0.main_module@ == main_module@,
            r.0.modules@.len() == 0,
            r.1@.map_values(|m: ModuleAlias| m@) == seq![main_module@],
    {
        let mut stack: Vec<ModuleAlias> = Vec::new();
        stack.push(main_module.clone_alias());
        assert(stack@.map_values(|m: ModuleAlias| m@) =~= seq![main_module@]);
        (WholeProgram { main_module: main_module.clone_alias(), modules: Vec::new() }, stack)
    }

    /// Whether the module `alias` is loaded.
    pub fn is_loaded(&self, alias: &ModuleAlias) -> (r: bool)
        ensures
            r == loaded_aliases(self.modules@).contains(alias@),
    {
        let ghost names = loaded_aliases(self.modules@);
        let mut i: usize = 0;
        while i < self.modules.len()
            invariant
                i <= self.modules@.len(),
                names == loaded_aliases(self.modules@),
                forall|j: int| 0 <= j < i ==> names[j] != alias@,
            decreases self.modules@.len() - i,
        {
            if self.modules[i].alias.same_as(alias) {
                assert(names[i as int] == alias@);
                return true;
            }
            i = i + 1;
        }
        false
    }

    /// Pops the stack up to the next module to load (see `next_to_load`).
    pub fn next_module(&self, stack: &mut Vec<ModuleAlias>) -> (r: Option<ModuleAlias>)
        ensures
            ({
                let n = next_to_load(old(stack)@.map_values(|m: ModuleAlias| m@), loaded_aliases(self.modules@));
                &&& (match r {
                    Some(m) => n.0 == Some(m@),
                    None => n.0 is None,
                })
                &&& final(stack)@.map_values(|m: ModuleAlias| m@) == n.1
            }),
    {
        let ghost loaded = loaded_aliases(self.modules@);
        let ghost start = old(stack)@.map_values(|m: ModuleAlias| m@);
        loop
            invariant
                loaded == loaded_aliases(self.modules@),
                start == old(stack)@.map_values(|m: ModuleAlias| m@),
                next_to_load(start, loaded) == next_to_load(stack@.map_values(|m: ModuleAlias| m@), loaded),
            decreases stack@.len(),
        {
            let ghost before = stack@;
            let ghost bm = before.map_values(|m: ModuleAlias| m@);
            if stack.len() == 0 {
                assert(bm.len() == 0);
                return None;
            }
            let m = match stack.pop() {
                Some(m) => m,
                None => {
                    return None;
                },
            };
            assert(bm.drop_last() =~= stack@.map_values(|m: ModuleAlias| m@));
            assert(bm.last() == m@);
            if !self.is_loaded(&m) {
                return Some(m);
            }
        }
    }

    /// Records a loaded module and pushes the aliases of the modules it
    /// imports onto the stack, in the order of its imports. Where an import
    /// path has a part with a dot, nothing changes and the result is false.
    pub fn record_module(&mut self, stack: &mut Vec<ModuleAlias>, module: FrisbeeModule) -> (ok: bool)
        ensures
            ok == imports_dot_free(module.ast@),
            ok ==> final(self).modules@ == old(self).modules@.push(module),
            ok ==> final(stack)@.map_values(|m: ModuleAlias| m@) == old(stack)@.map_values(|m: ModuleAlias| m@)
                + imported_aliases(module.ast@),
            !ok ==> final(self).modules@ == old(self).modules@ && final(stack)@ == old(stack)@,
            final(self).main_module == old(self).main_module,
    {
        let ghost f = module.ast@;
        let mut i: usize = 0;
        while i < module.ast.imports.len()
            invariant
                i <= module.ast.imports@.len(),
                f == module.ast@,
                forall|a: int, b: int|
                    0 <= a < i && 0 <= b < f.imports[a].module.len() ==> has_no_dot(#[trigger] f.imports[a].module[b]),
            decreases module.ast.imports@.len() - i,
        {
            let path = &module.ast.imports[i].module;
            let mut j: usize = 0;
            while j < path.len()
                invariant
                    i < module.ast.imports@.len(),
                    j <= path@.len(),
                    path == module.ast.imports@[i as int].module,
                    f == module.ast@,
                    forall|b: int| 0 <= b < j ==> has_no_dot(#[trigger] path@[b]@),
                decreases path@.len() - j,
            {
                if !crate::alias::no_dot_in(path[j].as_str()) {
                    assert(f.imports[i as int].module[j as int] == path@[j as int]@);
                    return false;
                }
                j = j + 1;
            }
            assert forall|b: int| 0 <= b < f.imports[i as int].module.len() implies has_no_dot(
                #[trigger] f.imports[i as int].module[b],
            ) by {
                assert(f.imports[i as int].module[b] == path@[b]@);
            }
            i = i + 1;
        }
        let ghost start = stack@.map_values(|m: ModuleAlias| m@);
        let mut k: usize = 0;
        while k < module.ast.imports.len()
            invariant
                k <= module.ast.imports@.len(),
                f == module.ast@,
                imports_dot_free(f),
                stack@.map_values(|m: ModuleAlias| m@) == start + imported_aliases(f).take(k as int),
            decreases module.ast.imports@.len() - k,
        {
            let path = &module.ast.imports[k].module;
            assert forall|b: int| 0 <= b < path@.len() implies has_no_dot(#[trigger] path@[b]@) by {
                assert(path@[b]@ == f.imports[k as int].module[b]);
            }
            let alias = ModuleAlias::new(path.as_slice());
            let ghost before = stack@.map_values(|m: ModuleAlias| m@);
            stack.push(alias);
            assert(strings_view(path@) == f.imports[k as int].module);
            assert(imported_aliases(f).take(k + 1) =~= imported_aliases(f).take(k as int).push(
                join_with_dots(f.imports[k as int].module),
            ));
            assert(stack@.map_values(|m: ModuleAlias| m@) =~= before.push(join_with_dots(f.imports[k as int].module)));
            k = k + 1;
        }
        assert(imported_aliases(f).take(imported_aliases(f).len() as int) =~= imported_aliases(f));
        self.modules.push(module);
        true
    }
}

} // verus!
