//! Recursive-descent parsing of statements and blocks.
use vstd::prelude::*;

use crate::ast::parsed::{
    elifs_view, exprs_view, stmts_view, ExprPos, ExprWithPos, Statement, StatementWithPos,
    StmtModel, StmtPos,
};
use crate::parsing::expressions::{p_call_args, p_expr};
use crate::parsing::parser::{at, fail, fail_expecting, left, p_type, tk, took, PErr, ParseResult, Parsed, Parser};
use crate::parsing::scanner::{ScannedModel, Token, TokenModel};
use crate::types::TypeModel;

verus! {

/// A statement that starts at the token at `p`.
pub open spec fn sp(ts: Seq<ScannedModel>, s: StmtModel, p: int) -> StmtPos {
    StmtPos { stmt: s, pos: at(ts, p).first }
}

/// `t ;` where `t` is the token at `p` and the statement `s` started at
/// `start`: the statement and the two tokens.
pub open spec fn p_then_semicolon(ts: Seq<ScannedModel>, p: int, s: StmtModel, start: int, c: nat) -> Parsed<StmtPos> {
    if tk(ts, p) == TokenModel::Semicolon {
        Ok((sp(ts, s, start), c))
    } else {
        fail_expecting(ts, p, "Unexpected token"@, TokenModel::Semicolon)
    }
}

/// A block: `{`, statements, `}`.
pub open spec fn p_block(ts: Seq<ScannedModel>, p: int) -> Parsed<Seq<StmtPos>>
    decreases left(ts, p), 5nat,
{
    if tk(ts, p) != TokenModel::LeftCurlyBrackets {
        fail_expecting(ts, p, "Unexpected token"@, TokenModel::LeftCurlyBrackets)
    } else {
        match p_block_items(ts, p + 1, Seq::empty()) {
            Err(e) => Err(e),
            Ok((s, c)) => Ok((s, c + 1)),
        }
    }
}

/// The statements of a block from `p` on, after `acc`, up to and with `}`.
pub open spec fn p_block_items(ts: Seq<ScannedModel>, p: int, acc: Seq<StmtPos>) -> Parsed<Seq<StmtPos>>
    decreases left(ts, p), 11nat,
{
    if tk(ts, p) == TokenModel::RightCurlyBrackets {
        Ok((acc, 1))
    } else {
        match p_stmt(ts, p) {
            Err(e) => Err(e),
            Ok((st, c)) => if !took(ts, p, c) {
                // never taken: a statement takes a token
                Ok((acc, 0))
            } else {
                match p_block_items(ts, p + c, acc.push(st)) {
                    Err(e) => Err(e),
                    Ok((r, c2)) => Ok((r, c + c2)),
                }
            },
        }
    }
}

/// A statement: `break;`, `continue;`, `if`, `while`, `foreach`,
/// `return [e];`, a variable declaration (where a type parses), else an
/// expression statement.
pub open spec fn p_stmt(ts: Seq<ScannedModel>, p: int) -> Parsed<StmtPos>
    decreases left(ts, p), 10nat,
{
    match tk(ts, p) {
        TokenModel::Break => p_then_semicolon(ts, p + 1, StmtModel::Break, p, 2),
        TokenModel::Continue => p_then_semicolon(ts, p + 1, StmtModel::Continue, p, 2),
        TokenModel::If => p_if(ts, p),
        TokenModel::While => p_while(ts, p),
        TokenModel::Foreach => p_foreach(ts, p),
        TokenModel::Return => if tk(ts, p + 1) == TokenModel::Semicolon {
            Ok((sp(ts, StmtModel::Return(None), p), 2))
        } else {
            match p_expr(ts, p + 1) {
                Err(e) => Err(e),
                Ok((e, c)) => p_then_semicolon(ts, p + 1 + c, StmtModel::Return(Some(e)), p, c + 2),
            }
        },
        _ => match p_type(ts, p) {
            Ok((t, c)) => match p_var_rest(ts, p + c, t, p) {
                Err(e) => Err(e),
                Ok((s, c2)) => Ok((s, c + c2)),
            },
            Err(_) => p_expr_stmt(ts, p),
        },
    }
}

/// After the type `t` of a declaration that started at `start`: the name,
/// then `;` or `= value;`.
pub open spec fn p_var_rest(ts: Seq<ScannedModel>, p: int, t: TypeModel<Seq<char>>, start: int) -> Parsed<StmtPos> {
    match tk(ts, p) {
        TokenModel::Identifier(name) => if tk(ts, p + 1) == TokenModel::Semicolon {
            Ok((sp(ts, StmtModel::VarDecl(t, name), start), 2))
        } else if tk(ts, p + 1) == TokenModel::Equal {
            match p_expr(ts, p + 2) {
                Err(e) => Err(e),
                Ok((e, c)) => p_then_semicolon(ts, p + 2 + c, StmtModel::VarDeclWithAssign(t, name, e), start, c + 3),
            }
        } else {
            fail(ts, p + 1, "Expected assignment or semicolon to finish declaration"@)
        },
        _ => fail(ts, p, "Unexpected token (expected identifier)"@),
    }
}

/// An expression, then `;` (an expression statement), `= value;` (an
/// assignment) or `! m(args);` (a message to an active object).
pub open spec fn p_expr_stmt(ts: Seq<ScannedModel>, p: int) -> Parsed<StmtPos> {
    match p_expr(ts, p) {
        Err(e) => Err(e),
        Ok((e, c)) => {
            let q = p + c;
            if tk(ts, q) == TokenModel::Semicolon {
                Ok((sp(ts, StmtModel::Expr(e), p), c + 1))
            } else if tk(ts, q) == TokenModel::Equal {
                match p_expr(ts, q + 1) {
                    Err(err) => Err(err),
                    Ok((v, c2)) => p_then_semicolon(ts, q + 1 + c2, StmtModel::Assign(e, v), p, c + c2 + 2),
                }
            } else if tk(ts, q) == TokenModel::Bang {
                match tk(ts, q + 1) {
                    TokenModel::Identifier(m) => match p_call_args(ts, q + 2) {
                        Err(err) => Err(err),
                        Ok((args, c2)) => p_then_semicolon(
                            ts,
                            q + 2 + c2,
                            StmtModel::SendMessage(e, m, args),
                            p,
                            c + c2 + 3,
                        ),
                    },
                    _ => fail(ts, q + 1, "Unexpected token (expected identifier)"@),
                }
            } else {
                fail_expecting(ts, q, "Expression abruptly ended"@, TokenModel::Semicolon)
            }
        },
    }
}

/// `if c {..}`, then any `elif c {..}`, then maybe `else {..}`.
pub open spec fn p_if(ts: Seq<ScannedModel>, p: int) -> Parsed<StmtPos>
    decreases left(ts, p), 9nat,
{
    if tk(ts, p) != TokenModel::If {
        fail_expecting(ts, p, "Unexpected token"@, TokenModel::If)
    } else {
        match p_expr(ts, p + 1) {
            Err(e) => Err(e),
            Ok((cond, c)) => match p_block(ts, p + 1 + c) {
                Err(e) => Err(e),
                Ok((body, c2)) => match p_elifs(ts, p + 1 + c + c2, Seq::empty()) {
                    Err(e) => Err(e),
                    Ok((elifs, c3)) => {
                        let q = p + 1 + c + c2 + c3;
                        if tk(ts, q) == TokenModel::Else {
                            match p_block(ts, q + 1) {
                                Err(e) => Err(e),
                                Ok((eb, c4)) => Ok(
                                    (sp(ts, StmtModel::IfElse(cond, body, elifs, eb), p), (q + 1 + c4 - p) as nat),
                                ),
                            }
                        } else {
                            Ok((sp(ts, StmtModel::IfElse(cond, body, elifs, Seq::empty()), p), (q - p) as nat))
                        }
                    },
                },
            },
        }
    }
}

/// The `elif` branches from `p` on, after `acc`.
pub open spec fn p_elifs(ts: Seq<ScannedModel>, p: int, acc: Seq<(ExprPos, Seq<StmtPos>)>) -> Parsed<
    Seq<(ExprPos, Seq<StmtPos>)>,
>
    decreases left(ts, p), 8nat,
{
    if tk(ts, p) == TokenModel::Elif {
        match p_expr(ts, p + 1) {
            Err(e) => Err(e),
            Ok((cond, c)) => match p_block(ts, p + 1 + c) {
                Err(e) => Err(e),
                Ok((body, c2)) => match p_elifs(ts, p + 1 + c + c2, acc.push((cond, body))) {
                    Err(e) => Err(e),
                    Ok((r, c3)) => Ok((r, 1 + c + c2 + c3)),
                },
            },
        }
    } else {
        Ok((acc, 0))
    }
}

/// `elif` branches keep the order of the source text. Parsing after
/// earlier branches `acc` gives `acc` followed by what parsing alone gives;
/// and what parsing alone gives is the branch right at `p` (its condition
/// and block), then the branches after it, in order. Without an `elif` at
/// `p` there is none.
pub proof fn law_elif_branches_keep_source_order(ts: Seq<ScannedModel>, p: int, acc: Seq<(ExprPos, Seq<StmtPos>)>)
    ensures
        p_elifs(ts, p, acc) == match p_elifs(ts, p, Seq::empty()) {
            Ok((r, c)) => Ok((acc + r, c)),
            Err(e) => Err(e),
        },
        tk(ts, p) != TokenModel::Elif ==> p_elifs(ts, p, Seq::empty()) == Ok::<(Seq<(ExprPos, Seq<StmtPos>)>, nat), PErr>(
            (Seq::empty(), 0),
        ),
        tk(ts, p) == TokenModel::Elif && p_elifs(ts, p, Seq::empty()) is Ok ==> ({
            let (r, c) = p_elifs(ts, p, Seq::empty())->Ok_0;
            let (cond, c1) = p_expr(ts, p + 1)->Ok_0;
            let (body, c2) = p_block(ts, p + 1 + c1)->Ok_0;
            let (rest, c3) = p_elifs(ts, p + 1 + c1 + c2, Seq::empty())->Ok_0;
            &&& p_expr(ts, p + 1) is Ok
            &&& p_block(ts, p + 1 + c1) is Ok
            &&& p_elifs(ts, p + 1 + c1 + c2, Seq::empty()) is Ok
            &&& r == seq![(cond, body)] + rest
            &&& c == 1 + c1 + c2 + c3
        }),
    decreases left(ts, p),
{
    if tk(ts, p) == TokenModel::Elif {
        if let Ok((cond, c1)) = p_expr(ts, p + 1) {
            if let Ok((body, c2)) = p_block(ts, p + 1 + c1) {
                let q = p + 1 + c1 + c2;
                assert(left(ts, q) < left(ts, p));
                law_elif_branches_keep_source_order(ts, q, acc.push((cond, body)));
                law_elif_branches_keep_source_order(ts, q, seq![(cond, body)]);
                if let Ok((rest, c3)) = p_elifs(ts, q, Seq::empty()) {
                    assert(acc.push((cond, body)) + rest =~= acc + (seq![(cond, body)] + rest));
                    assert(Seq::<(ExprPos, Seq<StmtPos>)>::empty().push((cond, body)) =~= seq![(cond, body)]);
                }
                assert(Seq::<(ExprPos, Seq<StmtPos>)>::empty().push((cond, body)) =~= seq![(cond, body)]);
            }
        }
    } else {
        assert(acc + Seq::<(ExprPos, Seq<StmtPos>)>::empty() =~= acc);
    }
}

/// `while c {..}`.
pub open spec fn p_while(ts: Seq<ScannedModel>, p: int) -> Parsed<StmtPos>
    decreases left(ts, p), 7nat,
{
    if tk(ts, p) != TokenModel::While {
        fail_expecting(ts, p, "Unexpected token"@, TokenModel::While)
    } else {
        match p_expr(ts, p + 1) {
            Err(e) => Err(e),
            Ok((cond, c)) => match p_block(ts, p + 1 + c) {
                Err(e) => Err(e),
                Ok((body, c2)) => Ok((sp(ts, StmtModel::While(cond, body), p), 1 + c + c2)),
            },
        }
    }
}

/// `foreach x in e {..}`.
pub open spec fn p_foreach(ts: Seq<ScannedModel>, p: int) -> Parsed<StmtPos>
    decreases left(ts, p), 7nat,
{
    if tk(ts, p) != TokenModel::Foreach {
        fail_expecting(ts, p, "Unexpected token"@, TokenModel::Foreach)
    } else {
        match tk(ts, p + 1) {
            TokenModel::Identifier(name) => if tk(ts, p + 2) != TokenModel::In {
                fail_expecting(ts, p + 2, "Unexpected token"@, TokenModel::In)
            } else {
                match p_expr(ts, p + 3) {
                    Err(e) => Err(e),
                    Ok((iter, c)) => match p_block(ts, p + 3 + c) {
                        Err(e) => Err(e),
                        Ok((body, c2)) => Ok((sp(ts, StmtModel::Foreach(name, iter, body), p), 3 + c + c2)),
                    },
                }
            },
            _ => fail(ts, p + 1, "Unexpected token (expected identifier)"@),
        }
    }
}

} // verus!

verus! {

/// How a parse of a statement answers its spec.
pub open spec fn gives_stmt(spec: Parsed<StmtPos>, r: ParseResult<StatementWithPos>, p0: int, p1: int) -> bool {
    match spec {
        Ok((s, c)) => r matches Ok(x) && x@ == s && p1 == p0 + c,
        Err(err) => r matches Err(x) && x@ == err,
    }
}

/// How a parse of statements answers its spec.
pub open spec fn gives_stmts(spec: Parsed<Seq<StmtPos>>, r: ParseResult<Vec<StatementWithPos>>, p0: int, p1: int) -> bool {
    match spec {
        Ok((s, c)) => r matches Ok(x) && stmts_view(x@) == s && p1 == p0 + c,
        Err(err) => r matches Err(x) && x@ == err,
    }
}

/// How a parse of `elif` branches answers its spec.
pub open spec fn gives_elifs(
    spec: Parsed<Seq<(ExprPos, Seq<StmtPos>)>>,
    r: ParseResult<Vec<(ExprWithPos, Vec<StatementWithPos>)>>,
    p0: int,
    p1: int,
) -> bool {
    match spec {
        Ok((s, c)) => r matches Ok(x) && elifs_view(x@) == s && p1 == p0 + c,
        Err(err) => r matches Err(x) && x@ == err,
    }
}

proof fn lemma_stmts(xs: Vec<StatementWithPos>, s: Seq<StmtPos>)
    requires
        s.len() == xs@.len(),
        forall|i: int| 0 <= i < s.len() ==> s[i] == crate::ast::parsed::stmt_view(#[trigger] xs@[i]),
    ensures
        s == stmts_view(xs@),
{
    assert(s =~= stmts_view(xs@));
}

proof fn lemma_elifs(xs: Vec<(ExprWithPos, Vec<StatementWithPos>)>, s: Seq<(ExprPos, Seq<StmtPos>)>)
    requires
        s.len() == xs@.len(),
        forall|i: int|
            0 <= i < s.len() ==> {
                &&& (#[trigger] s[i]).0 == xs@[i].0@
                &&& s[i].1.len() == xs@[i].1@.len()
                &&& forall|j: int|
                    0 <= j < s[i].1.len() ==> s[i].1[j] == crate::ast::parsed::stmt_view(#[trigger] xs@[i].1@[j])
            },
    ensures
        s == elifs_view(xs@),
{
    assert forall|i: int| 0 <= i < s.len() implies s[i] == elifs_view(xs@)[i] by {
        lemma_stmts(xs@[i].1, s[i].1);
    }
    assert(s =~= elifs_view(xs@));
}

proof fn lemma_stmt_took(ts: Seq<ScannedModel>, p: int)
    requires
        p_stmt(ts, p) is Ok,
    ensures
        took(ts, p, (p_stmt(ts, p)->Ok_0).1),
{
    match tk(ts, p) {
        TokenModel::Break | TokenModel::Continue | TokenModel::If | TokenModel::While | TokenModel::Foreach
        | TokenModel::Return => {},
        _ => {
            if p_type(ts, p) is Ok {
                crate::parsing::parser::lemma_type_took(ts, p);
            } else {
                crate::parsing::expressions::lemma_expr_took(ts, p);
            }
        },
    }
}

/// The statement `s` that starts at the token at `start`.
fn stmt_at(parser: &Parser, s: Statement, start: usize) -> (r: StatementWithPos)
    ensures
        r.statement == s,
        r.pos == at(parser.toks(), start as int).first,
{
    let (first, _) = parser.span(start, start);
    StatementWithPos { statement: s, pos: first }
}

impl<'a> Parser<'a> {
    /// Parses a block (see `p_block`).
    pub(crate) fn parse_statements_in_curly_block(&mut self) -> (r: ParseResult<Vec<StatementWithPos>>)
        requires
            old(self).wf(),
        ensures
            final(self).toks() == old(self).toks(),
            final(self).wf(),
            gives_stmts(p_block(old(self).toks(), old(self).pos()), r, old(self).pos(), final(self).pos()),
        decreases left(old(self).toks(), old(self).pos()), 5nat,
    {
        let start = self.position();
        if !self.tok_is(start, &Token::LeftCurlyBrackets) {
            return self.error_expecting(start, "Unexpected token", Token::LeftCurlyBrackets);
        }
        self.set_position(start + 1);
        let v: Vec<StatementWithPos> = Vec::new();
        assert(stmts_view(v@) =~= Seq::<StmtPos>::empty());
        self.parse_block_items(v)
    }

    /// Parses the statements of a block after `acc` (see `p_block_items`).
    fn parse_block_items(&mut self, acc: Vec<StatementWithPos>) -> (r: ParseResult<Vec<StatementWithPos>>)
        requires
            old(self).wf(),
        ensures
            final(self).toks() == old(self).toks(),
            final(self).wf(),
            gives_stmts(p_block_items(old(self).toks(), old(self).pos(), stmts_view(acc@)), r, old(self).pos(), final(self).pos()),
        decreases left(old(self).toks(), old(self).pos()), 11nat,
    {
        let ghost ts = self.toks();
        let p = self.position();
        if self.tok_is(p, &Token::RightCurlyBrackets) {
            self.set_position(p + 1);
            return Ok(acc);
        }
        let st = match self.parse_statement() {
            Ok(s) => s,
            Err(e) => {
                return Err(e);
            },
        };
        proof {
            lemma_stmt_took(ts, p as int);
        }
        let mut items = acc;
        let ghost before = stmts_view(items@);
        let ghost m = st@;
        items.push(st);
        assert(stmts_view(items@) =~= before.push(m));
        self.parse_block_items(items)
    }

    /// Parses a statement (see `p_stmt`).
    pub fn parse_statement(&mut self) -> (r: ParseResult<StatementWithPos>)
        requires
            old(self).wf(),
        ensures
            final(self).toks() == old(self).toks(),
            final(self).wf(),
            gives_stmt(p_stmt(old(self).toks(), old(self).pos()), r, old(self).pos(), final(self).pos()),
        decreases left(old(self).toks(), old(self).pos()), 10nat,
    {
        let ghost ts = self.toks();
        let start = self.position();
        if self.tok_is(start, &Token::Break) || self.tok_is(start, &Token::Continue) {
            let brk = self.tok_is(start, &Token::Break);
            if !self.tok_is(start + 1, &Token::Semicolon) {
                return self.error_expecting(start + 1, "Unexpected token", Token::Semicolon);
            }
            self.set_position(start + 2);
            let st = if brk {
                stmt_at(self, Statement::Break, start)
            } else {
                stmt_at(self, Statement::Continue, start)
            };
            assert(st@ == sp(ts, if brk { StmtModel::Break } else { StmtModel::Continue }, start as int)) by {
                reveal_with_fuel(crate::ast::parsed::stmt_view, 1);
            }
            return Ok(st);
        }
        if self.tok_is(start, &Token::If) {
            return self.parse_if_else_stmt();
        }
        if self.tok_is(start, &Token::While) {
            return self.parse_while_loop_stmt();
        }
        if self.tok_is(start, &Token::Foreach) {
            return self.parse_foreach_loop_stmt();
        }
        if self.tok_is(start, &Token::Return) {
            if self.tok_is(start + 1, &Token::Semicolon) {
                self.set_position(start + 2);
                let st = stmt_at(self, Statement::Return(None), start);
                assert(st@ == sp(ts, StmtModel::Return(None), start as int)) by {
                    reveal_with_fuel(crate::ast::parsed::stmt_view, 1);
                }
                return Ok(st);
            }
            self.set_position(start + 1);
            let e = match self.parse_expr() {
                Ok(e) => e,
                Err(e) => {
                    return Err(e);
                },
            };
            let ghost m = e@;
            let q = self.position();
            if !self.tok_is(q, &Token::Semicolon) {
                return self.error_expecting(q, "Unexpected token", Token::Semicolon);
            }
            self.set_position(q + 1);
            let st = stmt_at(self, Statement::Return(Some(e)), start);
            assert(st@ == sp(ts, StmtModel::Return(Some(m)), start as int)) by {
                reveal_with_fuel(crate::ast::parsed::stmt_view, 1);
            }
            return Ok(st);
        }
        match self.parse_type() {
            Ok(t) => self.parse_var_declaration_continuation(t, start),
            Err(_) => {
                self.set_position(start);
                self.parse_expr_statement()
            },
        }
    }

    /// Parses the rest of a declaration of the type `t` that started at
    /// `start` (see `p_var_rest`).
    fn parse_var_declaration_continuation(&mut self, t: crate::types::ParsedType, start: usize) -> (r: ParseResult<
        StatementWithPos,
    >)
        requires
            old(self).wf(),
        ensures
            final(self).toks() == old(self).toks(),
            final(self).wf(),
            match p_var_rest(old(self).toks(), old(self).pos(), t@, start as int) {
                Ok((s, c)) => r matches Ok(x) && x@ == s && final(self).pos() == old(self).pos() + c,
                Err(err) => r matches Err(x) && x@ == err,
            },
    {
        let ghost ts = self.toks();
        let ghost tm = t@;
        let p = self.position();
        let name = match self.tok(p) {
            Token::Identifier(name) => name,
            _ => {
                return self.error_at(p, "Unexpected token (expected identifier)");
            },
        };
        let ghost nm = name@;
        if self.tok_is(p + 1, &Token::Semicolon) {
            self.set_position(p + 2);
            let st = stmt_at(self, Statement::VarDecl(t, name), start);
            assert(st@ == sp(ts, StmtModel::VarDecl(tm, nm), start as int)) by {
                reveal_with_fuel(crate::ast::parsed::stmt_view, 1);
            }
            Ok(st)
        } else if self.tok_is(p + 1, &Token::Equal) {
            self.set_position(p + 2);
            let value = match self.parse_expr() {
                Ok(e) => e,
                Err(e) => {
                    return Err(e);
                },
            };
            let ghost v = value@;
            let q = self.position();
            if !self.tok_is(q, &Token::Semicolon) {
                return self.error_expecting(q, "Unexpected token", Token::Semicolon);
            }
            self.set_position(q + 1);
            let st = stmt_at(self, Statement::VarDeclWithAssign(t, name, value), start);
            assert(st@ == sp(ts, StmtModel::VarDeclWithAssign(tm, nm, v), start as int)) by {
                reveal_with_fuel(crate::ast::parsed::stmt_view, 1);
            }
            Ok(st)
        } else {
            self.error_at(p + 1, "Expected assignment or semicolon to finish declaration")
        }
    }

    /// Parses an expression statement, an assignment or a message (see
    /// `p_expr_stmt`).
    fn parse_expr_statement(&mut self) -> (r: ParseResult<StatementWithPos>)
        requires
            old(self).wf(),
        ensures
            final(self).toks() == old(self).toks(),
            final(self).wf(),
            gives_stmt(p_expr_stmt(old(self).toks(), old(self).pos()), r, old(self).pos(), final(self).pos()),
    {
        let ghost ts = self.toks();
        let start = self.position();
        let e = match self.parse_expr() {
            Ok(e) => e,
            Err(e) => {
                return Err(e);
            },
        };
        let ghost m = e@;
        let q = self.position();
        if self.tok_is(q, &Token::Semicolon) {
            self.set_position(q + 1);
            let st = stmt_at(self, Statement::Expr(e), start);
            assert(st@ == sp(ts, StmtModel::Expr(m), start as int)) by {
                reveal_with_fuel(crate::ast::parsed::stmt_view, 1);
            }
            Ok(st)
        } else if self.tok_is(q, &Token::Equal) {
            self.set_position(q + 1);
            let value = match self.parse_expr() {
                Ok(v) => v,
                Err(err) => {
                    return Err(err);
                },
            };
            let ghost v = value@;
            let q2 = self.position();
            if !self.tok_is(q2, &Token::Semicolon) {
                return self.error_expecting(q2, "Unexpected token", Token::Semicolon);
            }
            self.set_position(q2 + 1);
            let st = stmt_at(self, Statement::Assign { left: e, right: value }, start);
            assert(st@ == sp(ts, StmtModel::Assign(m, v), start as int)) by {
                reveal_with_fuel(crate::ast::parsed::stmt_view, 1);
            }
            Ok(st)
        } else if self.tok_is(q, &Token::Bang) {
            let method = match self.tok(q + 1) {
                Token::Identifier(name) => name,
                _ => {
                    return self.error_at(q + 1, "Unexpected token (expected identifier)");
                },
            };
            self.set_position(q + 2);
            let args = match self.parse_function_call_args() {
                Ok(a) => a,
                Err(err) => {
                    return Err(err);
                },
            };
            let ghost a = exprs_view(args@);
            let ghost nm = method@;
            let q2 = self.position();
            if !self.tok_is(q2, &Token::Semicolon) {
                return self.error_expecting(q2, "Unexpected token", Token::Semicolon);
            }
            self.set_position(q2 + 1);
            let st = stmt_at(self, Statement::SendMessage { active: e, method, args }, start);
            assert(st@ == sp(ts, StmtModel::SendMessage(m, nm, a), start as int)) by {
                reveal_with_fuel(crate::ast::parsed::stmt_view, 1);
            }
            Ok(st)
        } else {
            self.error_expecting(q, "Expression abruptly ended", Token::Semicolon)
        }
    }

    /// Parses `if` with its branches (see `p_if`).
    fn parse_if_else_stmt(&mut self) -> (r: ParseResult<StatementWithPos>)
        requires
            old(self).wf(),
        ensures
            final(self).toks() == old(self).toks(),
            final(self).wf(),
            gives_stmt(p_if(old(self).toks(), old(self).pos()), r, old(self).pos(), final(self).pos()),
        decreases left(old(self).toks(), old(self).pos()), 9nat,
    {
        let ghost ts = self.toks();
        let start = self.position();
        if !self.tok_is(start, &Token::If) {
            return self.error_expecting(start, "Unexpected token", Token::If);
        }
        self.set_position(start + 1);
        let condition = match self.parse_expr() {
            Ok(e) => e,
            Err(e) => {
                return Err(e);
            },
        };
        let if_body = match self.parse_statements_in_curly_block() {
            Ok(b) => b,
            Err(e) => {
                return Err(e);
            },
        };
        let no_elifs: Vec<(ExprWithPos, Vec<StatementWithPos>)> = Vec::new();
        assert(elifs_view(no_elifs@) =~= Seq::<(ExprPos, Seq<StmtPos>)>::empty());
        let elif_bodies = match self.parse_elifs(no_elifs) {
            Ok(b) => b,
            Err(e) => {
                return Err(e);
            },
        };
        let q = self.position();
        let else_body = if self.tok_is(q, &Token::Else) {
            self.set_position(q + 1);
            match self.parse_statements_in_curly_block() {
                Ok(b) => b,
                Err(e) => {
                    return Err(e);
                },
            }
        } else {
            let v: Vec<StatementWithPos> = Vec::new();
            assert(stmts_view(v@) =~= Seq::<StmtPos>::empty());
            v
        };
        let ghost c = condition@;
        let ghost b = stmts_view(if_body@);
        let ghost ei = elifs_view(elif_bodies@);
        let ghost eb = stmts_view(else_body@);
        let st = stmt_at(self, Statement::IfElse { condition, if_body, elif_bodies, else_body }, start);
        assert(st@ == sp(ts, StmtModel::IfElse(c, b, ei, eb), start as int)) by {
            reveal_with_fuel(crate::ast::parsed::stmt_view, 1);
            if let StmtModel::IfElse(_, b1, e1, b2) = st@.stmt {
                if let Statement::IfElse { if_body: x1, elif_bodies: y1, else_body: x2, .. } = st.statement {
                    lemma_stmts(x1, b1);
                    lemma_elifs(y1, e1);
                    lemma_stmts(x2, b2);
                }
            }
        }
        Ok(st)
    }

    /// Parses `elif` branches after `acc` (see `p_elifs`).
    fn parse_elifs(&mut self, acc: Vec<(ExprWithPos, Vec<StatementWithPos>)>) -> (r: ParseResult<
        Vec<(ExprWithPos, Vec<StatementWithPos>)>,
    >)
        requires
            old(self).wf(),
        ensures
            final(self).toks() == old(self).toks(),
            final(self).wf(),
            gives_elifs(p_elifs(old(self).toks(), old(self).pos(), elifs_view(acc@)), r, old(self).pos(), final(self).pos()),
        decreases left(old(self).toks(), old(self).pos()), 8nat,
    {
        let p = self.position();
        if !self.tok_is(p, &Token::Elif) {
            return Ok(acc);
        }
        self.set_position(p + 1);
        let condition = match self.parse_expr() {
            Ok(e) => e,
            Err(e) => {
                return Err(e);
            },
        };
        let body = match self.parse_statements_in_curly_block() {
            Ok(b) => b,
            Err(e) => {
                return Err(e);
            },
        };
        let ghost m = (condition@, stmts_view(body@));
        let mut items = acc;
        let ghost before = elifs_view(items@);
        items.push((condition, body));
        assert(elifs_view(items@) =~= before.push(m));
        self.parse_elifs(items)
    }

    /// Parses `while` (see `p_while`).
    fn parse_while_loop_stmt(&mut self) -> (r: ParseResult<StatementWithPos>)
        requires
            old(self).wf(),
        ensures
            final(self).toks() == old(self).toks(),
            final(self).wf(),
            gives_stmt(p_while(old(self).toks(), old(self).pos()), r, old(self).pos(), final(self).pos()),
        decreases left(old(self).toks(), old(self).pos()), 7nat,
    {
        let ghost ts = self.toks();
        let start = self.position();
        if !self.tok_is(start, &Token::While) {
            return self.error_expecting(start, "Unexpected token", Token::While);
        }
        self.set_position(start + 1);
        let condition = match self.parse_expr() {
            Ok(e) => e,
            Err(e) => {
                return Err(e);
            },
        };
        let body = match self.parse_statements_in_curly_block() {
            Ok(b) => b,
            Err(e) => {
                return Err(e);
            },
        };
        let ghost c = condition@;
        let ghost b = stmts_view(body@);
        let st = stmt_at(self, Statement::While { condition, body }, start);
        assert(st@ == sp(ts, StmtModel::While(c, b), start as int)) by {
            reveal_with_fuel(crate::ast::parsed::stmt_view, 1);
            if let StmtModel::While(_, b1) = st@.stmt {
                if let Statement::While { body: x1, .. } = st.statement {
                    lemma_stmts(x1, b1);
                }
            }
        }
        Ok(st)
    }

    /// Parses `foreach` (see `p_foreach`).
    fn parse_foreach_loop_stmt(&mut self) -> (r: ParseResult<StatementWithPos>)
        requires
            old(self).wf(),
        ensures
            final(self).toks() == old(self).toks(),
            final(self).wf(),
            gives_stmt(p_foreach(old(self).toks(), old(self).pos()), r, old(self).pos(), final(self).pos()),
        decreases left(old(self).toks(), old(self).pos()), 7nat,
    {
        let ghost ts = self.toks();
        let start = self.position();
        if !self.tok_is(start, &Token::Foreach) {
            return self.error_expecting(start, "Unexpected token", Token::Foreach);
        }
        let item_name = match self.tok(start + 1) {
            Token::Identifier(name) => name,
            _ => {
                return self.error_at(start + 1, "Unexpected token (expected identifier)");
            },
        };
        if !self.tok_is(start + 2, &Token::In) {
            return self.error_expecting(start + 2, "Unexpected token", Token::In);
        }
        self.set_position(start + 3);
        let iterable = match self.parse_expr() {
            Ok(e) => e,
            Err(e) => {
                return Err(e);
            },
        };
        let body = match self.parse_statements_in_curly_block() {
            Ok(b) => b,
            Err(e) => {
                return Err(e);
            },
        };
        let ghost n = item_name@;
        let ghost it = iterable@;
        let ghost b = stmts_view(body@);
        let st = stmt_at(self, Statement::Foreach { item_name, iterable, body }, start);
        assert(st@ == sp(ts, StmtModel::Foreach(n, it, b), start as int)) by {
            reveal_with_fuel(crate::ast::parsed::stmt_view, 1);
            if let StmtModel::Foreach(_, _, b1) = st@.stmt {
                if let Statement::Foreach { body: x1, .. } = st.statement {
                    lemma_stmts(x1, b1);
                }
            }
        }
        Ok(st)
    }
}

} // verus!
