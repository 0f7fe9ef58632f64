//! Recursive-descent parsing of a file: imports, functions and classes.
use vstd::prelude::*;

use crate::ast::parsed::{
    functions_view, items_view, strings_view, ClassDecl, ClassModel, FileAst, FileModel, FunctionDecl,
    FunctionModel, ImportDecl, ImportModel, TypedItem,
};
use crate::parsing::parser::{at, fail, fail_expecting, left, p_type, tk, took, ParseResult, Parsed, Parser};
use crate::parsing::scanner::{ScannedModel, ScannedToken, Token, TokenModel};
use crate::parsing::statements::p_block;
use crate::types::{ParsedType, Type, TypeModel};

verus! {

/// More `.name` parts of a module path from `p` on, after `acc`.
pub open spec fn p_path(ts: Seq<ScannedModel>, p: int, acc: Seq<Seq<char>>) -> Parsed<Seq<Seq<char>>>
    decreases left(ts, p),
{
    if tk(ts, p) == TokenModel::Dot {
        match tk(ts, p + 1) {
            TokenModel::Identifier(s) => match p_path(ts, p + 2, acc.push(s)) {
                Err(e) => Err(e),
                Ok((r, c)) => Ok((r, 2 + c)),
            },
            _ => fail(ts, p + 1, "Unexpected token (expected identifier)"@),
        }
    } else {
        Ok((acc, 0))
    }
}

/// The imported names from `p` on, after the type names `tys` and the
/// function names `fns`, up to (not with) the `;`: each a type identifier
/// or an identifier, followed by a comma or not.
pub open spec fn p_names(ts: Seq<ScannedModel>, p: int, tys: Seq<Seq<char>>, fns: Seq<Seq<char>>) -> Parsed<
    (Seq<Seq<char>>, Seq<Seq<char>>),
>
    decreases left(ts, p),
{
    let next: Option<(Seq<Seq<char>>, Seq<Seq<char>>)> = match tk(ts, p) {
        TokenModel::TypeIdentifier(s) => Some((tys.push(s), fns)),
        TokenModel::Identifier(s) => Some((tys, fns.push(s))),
        _ => None,
    };
    match next {
        None => fail(ts, p, "Unexpected token (expected identifier)"@),
        Some((t2, f2)) => if tk(ts, p + 1) == TokenModel::Comma {
            match p_names(ts, p + 2, t2, f2) {
                Err(e) => Err(e),
                Ok((r, c)) => Ok((r, 2 + c)),
            }
        } else if tk(ts, p + 1) == TokenModel::Semicolon {
            Ok(((t2, f2), 1))
        } else {
            match p_names(ts, p + 1, t2, f2) {
                Err(e) => Err(e),
                Ok((r, c)) => Ok((r, 1 + c)),
            }
        },
    }
}

/// `from a.b import T, f;`
pub open spec fn p_import(ts: Seq<ScannedModel>, p: int) -> Parsed<ImportModel> {
    if tk(ts, p) != TokenModel::From {
        fail_expecting(ts, p, "Unexpected token"@, TokenModel::From)
    } else {
        match tk(ts, p + 1) {
            TokenModel::Identifier(first) => match p_path(ts, p + 2, seq![first]) {
                Err(e) => Err(e),
                Ok((path, c)) => {
                    let q = p + 2 + c;
                    if tk(ts, q) != TokenModel::Import {
                        fail_expecting(ts, q, "Unexpected token"@, TokenModel::Import)
                    } else {
                        match p_names(ts, q + 1, Seq::empty(), Seq::empty()) {
                            Err(e) => Err(e),
                            Ok(((tys, fns), c2)) => {
                                let r = q + 1 + c2;
                                if tk(ts, r) != TokenModel::Semicolon {
                                    fail_expecting(ts, r, "Unexpected token"@, TokenModel::Semicolon)
                                } else {
                                    Ok(
                                        (
                                            ImportModel { pos: at(ts, p).first, module: path, typenames: tys, functions: fns },
                                            (r + 1 - p) as nat,
                                        ),
                                    )
                                }
                            },
                        }
                    }
                },
            },
            _ => fail(ts, p + 1, "Unexpected token (expected identifier)"@),
        }
    }
}

/// The arguments of a function from `p` on, after `acc`, up to and with
/// `)`: each a type and a name, followed by a comma or not.
pub open spec fn p_fn_args(ts: Seq<ScannedModel>, p: int, acc: Seq<(TypeModel<Seq<char>>, Seq<char>)>) -> Parsed<
    Seq<(TypeModel<Seq<char>>, Seq<char>)>,
>
    decreases left(ts, p),
{
    if tk(ts, p) == TokenModel::RightParenthesis {
        Ok((acc, 1))
    } else {
        match p_type(ts, p) {
            Err(e) => Err(e),
            Ok((t, c)) => match tk(ts, p + c) {
                TokenModel::Identifier(n) => {
                    let q = if tk(ts, p + c + 1) == TokenModel::Comma {
                        p + c + 2
                    } else {
                        p + c + 1
                    };
                    match p_fn_args(ts, q, acc.push((t, n))) {
                        Err(e) => Err(e),
                        Ok((r, c2)) => Ok((r, (q - p + c2) as nat)),
                    }
                },
                _ => fail(ts, p + c, "Unexpected token (expected identifier)"@),
            },
        }
    }
}

/// The name of a function whose return type was `rettype`, at `q`: an
/// identifier; or, right before `(`, a constructor of the class `member`
/// (named by its return type).
pub open spec fn p_fn_name(
    ts: Seq<ScannedModel>,
    q: int,
    rettype: Option<TypeModel<Seq<char>>>,
    member: Option<Seq<char>>,
) -> Parsed<Seq<char>> {
    if tk(ts, q) == TokenModel::LeftParenthesis {
        match member {
            Some(m) => match rettype {
                Some(TypeModel::Custom(s)) => if s == m {
                    Ok((s, 0))
                } else {
                    fail(ts, q, "Method name is missing"@)
                },
                _ => fail(ts, q, "Method name is missing"@),
            },
            None => fail(ts, q, "Function is missing name"@),
        }
    } else {
        match tk(ts, q) {
            TokenModel::Identifier(s) => Ok((s, 1)),
            _ => fail(ts, q, "Unexpected token (expected identifier)"@),
        }
    }
}

/// `fun T name(args) {..}` or `fun void name(args) {..}`; in the class
/// `member`, `fun C(args) {..}` is its constructor.
pub open spec fn p_function(ts: Seq<ScannedModel>, p: int, member: Option<Seq<char>>) -> Parsed<FunctionModel> {
    if tk(ts, p) != TokenModel::Fun {
        fail_expecting(ts, p, "Unexpected token"@, TokenModel::Fun)
    } else {
        let rt: Parsed<Option<TypeModel<Seq<char>>>> = if tk(ts, p + 1) == TokenModel::Void {
            Ok((None, 1))
        } else {
            match p_type(ts, p + 1) {
                Err(e) => Err(e),
                Ok((t, c)) => Ok((Some(t), c)),
            }
        };
        match rt {
            Err(e) => Err(e),
            Ok((rettype, c)) => {
                let q = p + 1 + c;
                match p_fn_name(ts, q, rettype, member) {
                    Err(e) => Err(e),
                    Ok((name, k)) => {
                        let q2 = q + k;
                        if tk(ts, q2) != TokenModel::LeftParenthesis {
                            fail_expecting(ts, q2, "Unexpected token"@, TokenModel::LeftParenthesis)
                        } else {
                            match p_fn_args(ts, q2 + 1, Seq::empty()) {
                                Err(e) => Err(e),
                                Ok((args, c3)) => {
                                    let q3 = q2 + 1 + c3;
                                    match p_block(ts, q3) {
                                        Err(e) => Err(e),
                                        Ok((body, c4)) => Ok(
                                            (
                                                FunctionModel { pos: at(ts, p).first, rettype, name, args, statements: body },
                                                (q3 + c4 - p) as nat,
                                            ),
                                        ),
                                    }
                                },
                            }
                        }
                    },
                }
            },
        }
    }
}

/// The fields of a class from `p` on, after `acc`, up to its first method
/// or its end: each `T name;`.
pub open spec fn p_fields(ts: Seq<ScannedModel>, p: int, acc: Seq<(TypeModel<Seq<char>>, Seq<char>)>) -> Parsed<
    Seq<(TypeModel<Seq<char>>, Seq<char>)>,
>
    decreases left(ts, p),
{
    if tk(ts, p) == TokenModel::Fun || tk(ts, p) == TokenModel::RightCurlyBrackets {
        Ok((acc, 0))
    } else {
        match p_type(ts, p) {
            Err(e) => Err(e),
            Ok((t, c)) => match tk(ts, p + c) {
                TokenModel::Identifier(n) => if tk(ts, p + c + 1) == TokenModel::Semicolon {
                    match p_fields(ts, p + c + 2, acc.push((t, n))) {
                        Err(e) => Err(e),
                        Ok((r, c2)) => Ok((r, c + 2 + c2)),
                    }
                } else {
                    fail_expecting(ts, p + c + 1, "Unexpected token"@, TokenModel::Semicolon)
                },
                _ => fail(ts, p + c, "Unexpected token (expected identifier)"@),
            },
        }
    }
}

/// The methods of the class `name` from `p` on, after `acc`, up to its
/// end.
pub open spec fn p_methods(ts: Seq<ScannedModel>, p: int, acc: Seq<FunctionModel>, name: Seq<char>) -> Parsed<
    Seq<FunctionModel>,
>
    decreases left(ts, p),
{
    if tk(ts, p) == TokenModel::RightCurlyBrackets {
        Ok((acc, 0))
    } else {
        match p_function(ts, p, Some(name)) {
            Err(e) => Err(e),
            Ok((f, c)) => if !took(ts, p, c) {
                // never taken: a function takes a token
                Ok((acc, 0))
            } else {
                match p_methods(ts, p + c, acc.push(f), name) {
                    Err(e) => Err(e),
                    Ok((r, c2)) => Ok((r, c + c2)),
                }
            },
        }
    }
}

/// `active C {..}` or `class C {..}`: fields, then methods.
pub open spec fn p_object(ts: Seq<ScannedModel>, p: int, is_active: bool) -> Parsed<ClassModel> {
    let kw = if is_active {
        TokenModel::Active
    } else {
        TokenModel::Class
    };
    if tk(ts, p) != kw {
        fail_expecting(ts, p, "Unexpected token"@, kw)
    } else {
        match tk(ts, p + 1) {
            TokenModel::TypeIdentifier(name) => if tk(ts, p + 2) != TokenModel::LeftCurlyBrackets {
                fail_expecting(ts, p + 2, "Unexpected token"@, TokenModel::LeftCurlyBrackets)
            } else {
                match p_fields(ts, p + 3, Seq::empty()) {
                    Err(e) => Err(e),
                    Ok((fields, c)) => match p_methods(ts, p + 3 + c, Seq::empty(), name) {
                        Err(e) => Err(e),
                        Ok((methods, c2)) => {
                            let q = p + 3 + c + c2;
                            if tk(ts, q) != TokenModel::RightCurlyBrackets {
                                fail_expecting(ts, q, "Unexpected token"@, TokenModel::RightCurlyBrackets)
                            } else {
                                Ok(
                                    (
                                        ClassModel { pos: at(ts, p).first, is_active, name, fields, methods },
                                        (q + 1 - p) as nat,
                                    ),
                                )
                            }
                        },
                    },
                }
            },
            _ => fail(ts, p + 1, "Unexpected token (expected identifier)"@),
        }
    }
}

/// The declarations of a file from `p` on, after those in `acc`, up to the
/// end of the tokens or an end-of-file token.
pub open spec fn p_top(ts: Seq<ScannedModel>, p: int, acc: FileModel) -> Parsed<FileModel>
    decreases left(ts, p),
{
    if p >= ts.len() {
        Ok((acc, 0))
    } else {
        let step: Option<Parsed<FileModel>> = match tk(ts, p) {
            TokenModel::From => Some(
                match p_import(ts, p) {
                    Err(e) => Err(e),
                    Ok((i, c)) => Ok((FileModel { imports: acc.imports.push(i), ..acc }, c)),
                },
            ),
            TokenModel::Active => Some(
                match p_object(ts, p, true) {
                    Err(e) => Err(e),
                    Ok((o, c)) => Ok((FileModel { types: acc.types.push(o), ..acc }, c)),
                },
            ),
            TokenModel::Class => Some(
                match p_object(ts, p, false) {
                    Err(e) => Err(e),
                    Ok((o, c)) => Ok((FileModel { types: acc.types.push(o), ..acc }, c)),
                },
            ),
            TokenModel::Fun => Some(
                match p_function(ts, p, None) {
                    Err(e) => Err(e),
                    Ok((f, c)) => Ok((FileModel { functions: acc.functions.push(f), ..acc }, c)),
                },
            ),
            TokenModel::EOF => None,
            _ => Some(fail(ts, p, "Only imports and fun/class/active declarations are allowed at top level!"@)),
        };
        match step {
            None => Ok((acc, 0)),
            Some(Err(e)) => Err(e),
            Some(Ok((next, c))) => if !took(ts, p, c) {
                // never taken: a declaration takes a token
                Ok((acc, 0))
            } else {
                match p_top(ts, p + c, next) {
                    Err(e) => Err(e),
                    Ok((r, c2)) => Ok((r, c + c2)),
                }
            },
        }
    }
}

/// An empty file.
pub open spec fn empty_file() -> FileModel {
    FileModel { imports: Seq::empty(), functions: Seq::empty(), types: Seq::empty() }
}

/// A whole file from its first token.
#[verifier::opaque]
pub open spec fn p_file(ts: Seq<ScannedModel>) -> Parsed<FileModel> {
    p_top(ts, 0, empty_file())
}

} // verus!

verus! {

proof fn lemma_function_took(ts: Seq<ScannedModel>, p: int, member: Option<Seq<char>>)
    requires
        p_function(ts, p, member) is Ok,
    ensures
        took(ts, p, (p_function(ts, p, member)->Ok_0).1),
{
}

proof fn lemma_import_took(ts: Seq<ScannedModel>, p: int)
    requires
        p_import(ts, p) is Ok,
    ensures
        took(ts, p, (p_import(ts, p)->Ok_0).1),
{
}

proof fn lemma_object_took(ts: Seq<ScannedModel>, p: int, is_active: bool)
    requires
        p_object(ts, p, is_active) is Ok,
    ensures
        took(ts, p, (p_object(ts, p, is_active)->Ok_0).1),
{
}

/// A copy of a string.
fn copy_string(s: &String) -> (r: String)
    ensures
        r@ == s@,
{
    s.clone()
}

impl<'a> Parser<'a> {
    /// Parses more `.name` parts of a module path (see `p_path`).
    fn parse_path(&mut self, acc: Vec<String>) -> (r: ParseResult<Vec<String>>)
        requires
            old(self).wf(),
        ensures
            final(self).toks() == old(self).toks(),
            final(self).wf(),
            match p_path(old(self).toks(), old(self).pos(), strings_view(acc@)) {
                Ok((v, c)) => r matches Ok(x) && strings_view(x@) == v && final(self).pos() == old(self).pos() + c,
                Err(e) => r matches Err(x) && x@ == e,
            },
        decreases left(old(self).toks(), old(self).pos()),
    {
        let p = self.position();
        if !self.tok_is(p, &Token::Dot) {
            return Ok(acc);
        }
        let name = match self.tok(p + 1) {
            Token::Identifier(s) => s,
            _ => {
                return self.error_at(p + 1, "Unexpected token (expected identifier)");
            },
        };
        self.set_position(p + 2);
        let mut path = acc;
        let ghost before = strings_view(path@);
        let ghost n = name@;
        path.push(name);
        assert(strings_view(path@) =~= before.push(n));
        self.parse_path(path)
    }

    /// Parses imported names (see `p_names`).
    fn parse_names(&mut self, tys: Vec<String>, fns: Vec<String>) -> (r: ParseResult<(Vec<String>, Vec<String>)>)
        requires
            old(self).wf(),
        ensures
            final(self).toks() == old(self).toks(),
            final(self).wf(),
            match p_names(old(self).toks(), old(self).pos(), strings_view(tys@), strings_view(fns@)) {
                Ok(((t, f), c)) => r matches Ok(x) && strings_view(x.0@) == t && strings_view(x.1@) == f
                    && final(self).pos() == old(self).pos() + c,
                Err(e) => r matches Err(x) && x@ == e,
            },
        decreases left(old(self).toks(), old(self).pos()),
    {
        let p = self.position();
        let mut tys = tys;
        let mut fns = fns;
        let ghost t0 = strings_view(tys@);
        let ghost f0 = strings_view(fns@);
        match self.tok(p) {
            Token::TypeIdentifier(s) => {
                let ghost n = s@;
                tys.push(s);
                assert(strings_view(tys@) =~= t0.push(n));
            },
            Token::Identifier(s) => {
                let ghost n = s@;
                fns.push(s);
                assert(strings_view(fns@) =~= f0.push(n));
            },
            _ => {
                return self.error_at(p, "Unexpected token (expected identifier)");
            },
        }
        if self.tok_is(p + 1, &Token::Comma) {
            self.set_position(p + 2);
            self.parse_names(tys, fns)
        } else if self.tok_is(p + 1, &Token::Semicolon) {
            self.set_position(p + 1);
            Ok((tys, fns))
        } else {
            self.set_position(p + 1);
            self.parse_names(tys, fns)
        }
    }

    /// Parses an import (see `p_import`).
    pub fn parse_import(&mut self) -> (r: ParseResult<ImportDecl>)
        requires
            old(self).wf(),
        ensures
            final(self).toks() == old(self).toks(),
            final(self).wf(),
            match p_import(old(self).toks(), old(self).pos()) {
                Ok((m, c)) => r matches Ok(x) && x@ == m && final(self).pos() == old(self).pos() + c,
                Err(e) => r matches Err(x) && x@ == e,
            },
    {
        let start = self.position();
        if !self.tok_is(start, &Token::From) {
            return self.error_expecting(start, "Unexpected token", Token::From);
        }
        let first = match self.tok(start + 1) {
            Token::Identifier(s) => s,
            _ => {
                return self.error_at(start + 1, "Unexpected token (expected identifier)");
            },
        };
        let ghost f = first@;
        self.set_position(start + 2);
        let mut path: Vec<String> = Vec::new();
        path.push(first);
        assert(strings_view(path@) =~= seq![f]);
        let module = match self.parse_path(path) {
            Ok(m) => m,
            Err(e) => {
                return Err(e);
            },
        };
        let q = self.position();
        if !self.tok_is(q, &Token::Import) {
            return self.error_expecting(q, "Unexpected token", Token::Import);
        }
        self.set_position(q + 1);
        let tys: Vec<String> = Vec::new();
        let fns: Vec<String> = Vec::new();
        assert(strings_view(tys@) =~= Seq::<Seq<char>>::empty());
        assert(strings_view(fns@) =~= Seq::<Seq<char>>::empty());
        let (typenames, functions) = match self.parse_names(tys, fns) {
            Ok(x) => x,
            Err(e) => {
                return Err(e);
            },
        };
        let r = self.position();
        if !self.tok_is(r, &Token::Semicolon) {
            return self.error_expecting(r, "Unexpected token", Token::Semicolon);
        }
        self.set_position(r + 1);
        let (pos, _) = self.span(start, start);
        Ok(ImportDecl { pos, module, typenames, functions })
    }

    /// Parses the arguments of a function (see `p_fn_args`).
    fn parse_fn_args(&mut self, acc: Vec<TypedItem>) -> (r: ParseResult<Vec<TypedItem>>)
        requires
            old(self).wf(),
        ensures
            final(self).toks() == old(self).toks(),
            final(self).wf(),
            match p_fn_args(old(self).toks(), old(self).pos(), items_view(acc@)) {
                Ok((v, c)) => r matches Ok(x) && items_view(x@) == v && final(self).pos() == old(self).pos() + c,
                Err(e) => r matches Err(x) && x@ == e,
            },
        decreases left(old(self).toks(), old(self).pos()),
    {
        let p = self.position();
        if self.tok_is(p, &Token::RightParenthesis) {
            self.set_position(p + 1);
            return Ok(acc);
        }
        let t = match self.parse_type() {
            Ok(t) => t,
            Err(e) => {
                return Err(e);
            },
        };
        let q = self.position();
        let name = match self.tok(q) {
            Token::Identifier(s) => s,
            _ => {
                return self.error_at(q, "Unexpected token (expected identifier)");
            },
        };
        if self.tok_is(q + 1, &Token::Comma) {
            self.set_position(q + 2);
        } else {
            self.set_position(q + 1);
        }
        let mut items = acc;
        let ghost before = items_view(items@);
        let ghost m = (t@, name@);
        items.push(TypedItem { typename: t, name });
        assert(items_view(items@) =~= before.push(m));
        self.parse_fn_args(items)
    }

    /// Parses a function (see `p_function`); `member_of` is the class that
    /// it is a method of.
    fn parse_function_definition(&mut self, member_of: Option<&String>) -> (r: ParseResult<FunctionDecl>)
        requires
            old(self).wf(),
        ensures
            final(self).toks() == old(self).toks(),
            final(self).wf(),
            match p_function(
                old(self).toks(),
                old(self).pos(),
                match member_of {
                    Some(m) => Some(m@),
                    None => None,
                },
            ) {
                Ok((m, c)) => r matches Ok(x) && x@ == m && final(self).pos() == old(self).pos() + c,
                Err(e) => r matches Err(x) && x@ == e,
            },
    {
        let start = self.position();
        if !self.tok_is(start, &Token::Fun) {
            return self.error_expecting(start, "Unexpected token", Token::Fun);
        }
        let rettype: Option<ParsedType> = if self.tok_is(start + 1, &Token::Void) {
            self.set_position(start + 2);
            None
        } else {
            self.set_position(start + 1);
            match self.parse_type() {
                Ok(t) => Some(t),
                Err(e) => {
                    return Err(e);
                },
            }
        };
        let q = self.position();
        let name: String = if self.tok_is(q, &Token::LeftParenthesis) {
            match member_of {
                Some(m) => match &rettype {
                    Some(Type::Custom(s)) => if crate::text::same_text(s.as_str(), m.as_str()) {
                        copy_string(s)
                    } else {
                        return self.error_at(q, "Method name is missing");
                    },
                    _ => {
                        return self.error_at(q, "Method name is missing");
                    },
                },
                None => {
                    return self.error_at(q, "Function is missing name");
                },
            }
        } else {
            match self.tok(q) {
                Token::Identifier(s) => {
                    self.set_position(q + 1);
                    s
                },
                _ => {
                    return self.error_at(q, "Unexpected token (expected identifier)");
                },
            }
        };
        let q2 = self.position();
        if !self.tok_is(q2, &Token::LeftParenthesis) {
            return self.error_expecting(q2, "Unexpected token", Token::LeftParenthesis);
        }
        self.set_position(q2 + 1);
        let no_args: Vec<TypedItem> = Vec::new();
        assert(items_view(no_args@) =~= Seq::<(TypeModel<Seq<char>>, Seq<char>)>::empty());
        let args = match self.parse_fn_args(no_args) {
            Ok(a) => a,
            Err(e) => {
                return Err(e);
            },
        };
        let statements = match self.parse_statements_in_curly_block() {
            Ok(b) => b,
            Err(e) => {
                return Err(e);
            },
        };
        let (pos, _) = self.span(start, start);
        Ok(FunctionDecl { pos, rettype, name, args, statements })
    }

    /// Parses the fields of a class (see `p_fields`).
    fn parse_fields(&mut self, acc: Vec<TypedItem>) -> (r: ParseResult<Vec<TypedItem>>)
        requires
            old(self).wf(),
        ensures
            final(self).toks() == old(self).toks(),
            final(self).wf(),
            match p_fields(old(self).toks(), old(self).pos(), items_view(acc@)) {
                Ok((v, c)) => r matches Ok(x) && items_view(x@) == v && final(self).pos() == old(self).pos() + c,
                Err(e) => r matches Err(x) && x@ == e,
            },
        decreases left(old(self).toks(), old(self).pos()),
    {
        let p = self.position();
        if self.tok_is(p, &Token::Fun) || self.tok_is(p, &Token::RightCurlyBrackets) {
            return Ok(acc);
        }
        let t = match self.parse_type() {
            Ok(t) => t,
            Err(e) => {
                return Err(e);
            },
        };
        let q = self.position();
        let name = match self.tok(q) {
            Token::Identifier(s) => s,
            _ => {
                return self.error_at(q, "Unexpected token (expected identifier)");
            },
        };
        if !self.tok_is(q + 1, &Token::Semicolon) {
            return self.error_expecting(q + 1, "Unexpected token", Token::Semicolon);
        }
        self.set_position(q + 2);
        let mut items = acc;
        let ghost before = items_view(items@);
        let ghost m = (t@, name@);
        items.push(TypedItem { typename: t, name });
        assert(items_view(items@) =~= before.push(m));
        self.parse_fields(items)
    }

    /// Parses the methods of the class `name` (see `p_methods`).
    fn parse_methods(&mut self, acc: Vec<FunctionDecl>, name: &String) -> (r: ParseResult<Vec<FunctionDecl>>)
        requires
            old(self).wf(),
        ensures
            final(self).toks() == old(self).toks(),
            final(self).wf(),
            match p_methods(old(self).toks(), old(self).pos(), functions_view(acc@), name@) {
                Ok((v, c)) => r matches Ok(x) && functions_view(x@) == v && final(self).pos() == old(self).pos() + c,
                Err(e) => r matches Err(x) && x@ == e,
            },
        decreases left(old(self).toks(), old(self).pos()),
    {
        let ghost ts = self.toks();
        let p = self.position();
        if self.tok_is(p, &Token::RightCurlyBrackets) {
            return Ok(acc);
        }
        let f = match self.parse_function_definition(Some(name)) {
            Ok(f) => f,
            Err(e) => {
                return Err(e);
            },
        };
        proof {
            lemma_function_took(ts, p as int, Some(name@));
        }
        let mut items = acc;
        let ghost before = functions_view(items@);
        let ghost m = f@;
        items.push(f);
        assert(functions_view(items@) =~= before.push(m));
        self.parse_methods(items, name)
    }

    /// Parses a class (see `p_object`).
    pub fn parse_object(&mut self, is_active: bool) -> (r: ParseResult<ClassDecl>)
        requires
            old(self).wf(),
        ensures
            final(self).toks() == old(self).toks(),
            final(self).wf(),
            match p_object(old(self).toks(), old(self).pos(), is_active) {
                Ok((m, c)) => r matches Ok(x) && x@ == m && final(self).pos() == old(self).pos() + c,
                Err(e) => r matches Err(x) && x@ == e,
            },
    {
        let start = self.position();
        if is_active {
            if !self.tok_is(start, &Token::Active) {
                return self.error_expecting(start, "Unexpected token", Token::Active);
            }
        } else {
            if !self.tok_is(start, &Token::Class) {
                return self.error_expecting(start, "Unexpected token", Token::Class);
            }
        }
        let name = match self.tok(start + 1) {
            Token::TypeIdentifier(s) => s,
            _ => {
                return self.error_at(start + 1, "Unexpected token (expected identifier)");
            },
        };
        if !self.tok_is(start + 2, &Token::LeftCurlyBrackets) {
            return self.error_expecting(start + 2, "Unexpected token", Token::LeftCurlyBrackets);
        }
        self.set_position(start + 3);
        let no_fields: Vec<TypedItem> = Vec::new();
        assert(items_view(no_fields@) =~= Seq::<(TypeModel<Seq<char>>, Seq<char>)>::empty());
        let fields = match self.parse_fields(no_fields) {
            Ok(f) => f,
            Err(e) => {
                return Err(e);
            },
        };
        let no_methods: Vec<FunctionDecl> = Vec::new();
        assert(functions_view(no_methods@) =~= Seq::<FunctionModel>::empty());
        let methods = match self.parse_methods(no_methods, &name) {
            Ok(m) => m,
            Err(e) => {
                return Err(e);
            },
        };
        let q = self.position();
        if !self.tok_is(q, &Token::RightCurlyBrackets) {
            return self.error_expecting(q, "Unexpected token", Token::RightCurlyBrackets);
        }
        self.set_position(q + 1);
        let (pos, _) = self.span(start, start);
        Ok(ClassDecl { pos, is_active, name, fields, methods })
    }

    /// Parses the declarations from the position on into `acc` (see
    /// `p_top`).
    fn parse_top_items(&mut self, acc: FileAst) -> (r: ParseResult<FileAst>)
        requires
            old(self).wf(),
        ensures
            final(self).toks() == old(self).toks(),
            final(self).wf(),
            match p_top(old(self).toks(), old(self).pos(), acc@) {
                Ok((m, c)) => r matches Ok(x) && x@ == m && final(self).pos() == old(self).pos() + c,
                Err(e) => r matches Err(x) && x@ == e,
            },
        decreases left(old(self).toks(), old(self).pos()),
    {
        let ghost ts = self.toks();
        let ghost a = acc@;
        let p = self.position();
        if p >= self.token_count() {
            return Ok(acc);
        }
        let mut file = acc;
        if self.tok_is(p, &Token::From) {
            let i = match self.parse_import() {
                Ok(i) => i,
                Err(e) => {
                    return Err(e);
                },
            };
            proof {
                lemma_import_took(ts, p as int);
            }
            let ghost m = i@;
            file.imports.push(i);
            assert(file.imports@.map_values(|i: ImportDecl| i@) =~= a.imports.push(m));
        } else if self.tok_is(p, &Token::Active) || self.tok_is(p, &Token::Class) {
            let active = self.tok_is(p, &Token::Active);
            let o = match self.parse_object(active) {
                Ok(o) => o,
                Err(e) => {
                    return Err(e);
                },
            };
            proof {
                lemma_object_took(ts, p as int, active);
            }
            let ghost m = o@;
            file.types.push(o);
            assert(file.types@.map_values(|c: ClassDecl| c@) =~= a.types.push(m));
        } else if self.tok_is(p, &Token::Fun) {
            let f = match self.parse_function_definition(None) {
                Ok(f) => f,
                Err(e) => {
                    return Err(e);
                },
            };
            proof {
                lemma_function_took(ts, p as int, None);
            }
            let ghost m = f@;
            file.functions.push(f);
            assert(functions_view(file.functions@) =~= a.functions.push(m));
        } else if self.tok_is(p, &Token::EOF) {
            return Ok(file);
        } else {
            return self.error_at(p, "Only imports and fun/class/active declarations are allowed at top level!");
        }
        self.parse_top_items(file)
    }

    /// Parses a whole file (see `p_file`).
    pub fn parse_top_level(&mut self) -> (r: ParseResult<FileAst>)
        requires
            old(self).wf(),
        ensures
            final(self).toks() == old(self).toks(),
            match p_top(old(self).toks(), old(self).pos(), empty_file()) {
                Ok((m, c)) => r matches Ok(x) && x@ == m && final(self).pos() == old(self).pos() + c,
                Err(e) => r matches Err(x) && x@ == e,
            },
    {
        let file = FileAst { imports: Vec::new(), functions: Vec::new(), types: Vec::new() };
        proof {
            assert(file@.imports =~= Seq::<ImportModel>::empty());
            assert(file@.functions =~= Seq::<FunctionModel>::empty());
            assert(file@.types =~= Seq::<ClassModel>::empty());
            assert(file@ == empty_file());
        }
        self.parse_top_items(file)
    }
}

/// Parses the tokens of a file (see `p_file`).
pub fn parse(tokens: Vec<ScannedToken>) -> (r: ParseResult<FileAst>)
    requires
        tokens@.len() < usize::MAX,
    ensures
        match p_file(crate::parsing::scanner::scanned_model(tokens@)) {
            Ok((m, _)) => r matches Ok(x) && x@ == m,
            Err(e) => r matches Err(x) && x@ == e,
        },
{
    proof {
        reveal(p_file);
    }
    let mut parser = Parser::create(&tokens);
    parser.parse_top_level()
}

} // verus!
