//! Recursive-descent parsing of expressions.
//!
//! Precedence, from the loosest: `?:` and `?.`; `and`/`or`; `==`/`!=`;
//! comparisons; `+`/`-`; `*`/`/`; unary `-`/`not`; field and method
//! access, indexing and calls; primary expressions. Binary operators group
//! to the left.
use vstd::prelude::*;

use crate::ast::parsed::{exprs_view, BinaryOp, Expr, ExprModel, ExprPos, ExprWithPos, UnaryOp};
use crate::parsing::parser::{at, fail, fail_expecting, left, tk, took, ParseResult, Parsed, Parser};
use crate::parsing::scanner::{ScannedModel, Token, TokenModel};

verus! {

/// An expression from the token at `start` to the one at `end`.
pub open spec fn mk(ts: Seq<ScannedModel>, e: ExprModel, start: int, end: int) -> ExprPos {
    ExprPos { expr: e, first: at(ts, start).first, last: at(ts, end).last }
}

/// The binary operator that the token `t` stands for at the level `lvl`
/// (0: `and`/`or`, 1: equality, 2: comparison, 3: `+`/`-`, 4: `*`/`/`).
pub open spec fn op_at(lvl: nat, t: TokenModel) -> Option<BinaryOp> {
    if lvl == 0 {
        match t {
            TokenModel::And => Some(BinaryOp::And),
            TokenModel::Or => Some(BinaryOp::Or),
            _ => None,
        }
    } else if lvl == 1 {
        match t {
            TokenModel::EqualEqual => Some(BinaryOp::IsEqual),
            TokenModel::BangEqual => Some(BinaryOp::IsNotEqual),
            _ => None,
        }
    } else if lvl == 2 {
        match t {
            TokenModel::Greater => Some(BinaryOp::Greater),
            TokenModel::GreaterEqual => Some(BinaryOp::GreaterEqual),
            TokenModel::LessEqual => Some(BinaryOp::LessEqual),
            TokenModel::Less => Some(BinaryOp::Less),
            _ => None,
        }
    } else if lvl == 3 {
        match t {
            TokenModel::Minus => Some(BinaryOp::Minus),
            TokenModel::Plus => Some(BinaryOp::Plus),
            _ => None,
        }
    } else {
        match t {
            TokenModel::Star => Some(BinaryOp::Multiply),
            TokenModel::Slash => Some(BinaryOp::Divide),
            _ => None,
        }
    }
}

/// A termination measure for the levels of binary operators.
pub open spec fn rank(lvl: nat) -> nat {
    if lvl <= 4 {
        (89 - 2 * lvl) as nat
    } else {
        79
    }
}

/// An expression.
pub open spec fn p_expr(ts: Seq<ScannedModel>, p: int) -> Parsed<ExprPos>
    decreases left(ts, p), 101nat,
{
    match p_bin(ts, p, 0) {
        Err(e) => Err(e),
        Ok((l, c)) => match p_maybe_loop(ts, p, p + c, l) {
            Err(e) => Err(e),
            Ok((r, c2)) => Ok((r, c + c2)),
        },
    }
}

/// After `acc` (which started at `start`), from `p` on: `?: x` (a default)
/// and `?.m(args)` (a call on a maybe value), left to right.
pub open spec fn p_maybe_loop(ts: Seq<ScannedModel>, start: int, p: int, acc: ExprPos) -> Parsed<ExprPos>
    decreases left(ts, p), 99nat,
{
    if tk(ts, p) == TokenModel::QuestionElvis {
        match p_bin(ts, p + 1, 0) {
            Err(e) => Err(e),
            Ok((right, c)) => {
                let e = mk(ts, ExprModel::BinOp(Box::new(acc), Box::new(right), BinaryOp::Elvis), start, p + c);
                match p_maybe_loop(ts, start, p + 1 + c, e) {
                    Err(e) => Err(e),
                    Ok((r, c2)) => Ok((r, 1 + c + c2)),
                }
            },
        }
    } else if tk(ts, p) == TokenModel::QuestionDot {
        match tk(ts, p + 1) {
            TokenModel::Identifier(name) => match p_call_args(ts, p + 2) {
                Err(e) => Err(e),
                Ok((args, c)) => {
                    let e = mk(ts, ExprModel::MaybeMethodCall(Box::new(acc), name, args), start, p + 1 + c);
                    match p_maybe_loop(ts, start, p + 2 + c, e) {
                        Err(e) => Err(e),
                        Ok((r, c2)) => Ok((r, 2 + c + c2)),
                    }
                },
            },
            _ => fail(ts, p + 1, "Unexpected token (expected identifier)"@),
        }
    } else {
        Ok((acc, 0))
    }
}

/// Operands of the level `lvl` joined left to right by its operators (see
/// `op_at`); an operand is of the next level, or unary past the last.
pub open spec fn p_bin(ts: Seq<ScannedModel>, p: int, lvl: nat) -> Parsed<ExprPos>
    decreases left(ts, p), rank(lvl) + 1,
{
    let first = if lvl >= 4 {
        p_unary(ts, p)
    } else {
        p_bin(ts, p, lvl + 1)
    };
    match first {
        Err(e) => Err(e),
        Ok((l, c)) => match p_bin_loop(ts, p, p + c, l, lvl) {
            Err(e) => Err(e),
            Ok((r, c2)) => Ok((r, c + c2)),
        },
    }
}

/// After `acc` (which started at `start`), from `p` on: more operators of
/// the level `lvl`, each with its right operand.
pub open spec fn p_bin_loop(ts: Seq<ScannedModel>, start: int, p: int, acc: ExprPos, lvl: nat) -> Parsed<ExprPos>
    decreases left(ts, p), rank(lvl),
{
    match op_at(lvl, tk(ts, p)) {
        None => Ok((acc, 0)),
        Some(op) => {
            let right = if lvl >= 4 {
                p_unary(ts, p + 1)
            } else {
                p_bin(ts, p + 1, lvl + 1)
            };
            match right {
                Err(e) => Err(e),
                Ok((right, c)) => {
                    let e = mk(ts, ExprModel::BinOp(Box::new(acc), Box::new(right), op), start, p + c);
                    match p_bin_loop(ts, start, p + 1 + c, e, lvl) {
                        Err(e) => Err(e),
                        Ok((r, c2)) => Ok((r, 1 + c + c2)),
                    }
                },
            }
        },
    }
}

/// The unary operator that a token stands for.
pub open spec fn unary_op(t: TokenModel) -> Option<UnaryOp> {
    match t {
        TokenModel::Minus => Some(UnaryOp::Negate),
        TokenModel::Not => Some(UnaryOp::Not),
        _ => None,
    }
}

/// `-x` or `not x` on an access expression, or an access expression.
pub open spec fn p_unary(ts: Seq<ScannedModel>, p: int) -> Parsed<ExprPos>
    decreases left(ts, p), 70nat,
{
    match unary_op(tk(ts, p)) {
        Some(op) => match p_access(ts, p + 1) {
            Err(e) => Err(e),
            Ok((operand, c)) => Ok((mk(ts, ExprModel::UnaryOp(op, Box::new(operand)), p, p + c), 1 + c)),
        },
        None => p_access(ts, p),
    }
}

/// A primary expression followed by field accesses, method calls, indexing
/// and (on a name or an own field) a call.
pub open spec fn p_access(ts: Seq<ScannedModel>, p: int) -> Parsed<ExprPos>
    decreases left(ts, p), 60nat,
{
    match p_primary(ts, p) {
        Err(e) => Err(e),
        Ok((e, c)) => match p_access_loop(ts, p, p + c, e) {
            Err(e) => Err(e),
            Ok((r, c2)) => Ok((r, c + c2)),
        },
    }
}

/// The arguments of a call whose `(` is at `p`, with what they take.
pub open spec fn p_call_at(ts: Seq<ScannedModel>, p: int) -> Parsed<Seq<ExprPos>>
    decreases left(ts, p), 58nat,
{
    if tk(ts, p + 1) == TokenModel::RightParenthesis {
        Ok((Seq::empty(), 2))
    } else if p < ts.len() {
        match p_args_after_open(ts, p + 1) {
            Err(e) => Err(e),
            Ok((a, c)) => Ok((a, c + 1)),
        }
    } else {
        Ok((Seq::empty(), 0))
    }
}

/// The callee of a call on `e`: a name, or an own field (then a method of
/// the object itself).
pub open spec fn callee(e: ExprPos) -> Option<(bool, Seq<char>)> {
    match e.expr {
        ExprModel::Identifier(name) => Some((false, name)),
        ExprModel::OwnFieldAccess(name) => Some((true, name)),
        _ => None,
    }
}

/// After `acc` (which started at `start`), from `p` on: `.f`, `.m(args)`,
/// `[i]` and, on a callee, `(args)` (a call may not be called again).
pub open spec fn p_access_loop(ts: Seq<ScannedModel>, start: int, p: int, acc: ExprPos) -> Parsed<ExprPos>
    decreases left(ts, p), 59nat,
{
    match tk(ts, p) {
        TokenModel::Dot => match tk(ts, p + 1) {
            TokenModel::Identifier(name) => if tk(ts, p + 2) == TokenModel::LeftParenthesis {
                match p_call_args(ts, p + 2) {
                    Err(e) => Err(e),
                    Ok((args, c)) => {
                        let e = mk(ts, ExprModel::MethodCall(Box::new(acc), name, args), start, p + 1 + c);
                        match p_access_loop(ts, start, p + 2 + c, e) {
                            Err(e) => Err(e),
                            Ok((r, c2)) => Ok((r, 2 + c + c2)),
                        }
                    },
                }
            } else {
                let e = mk(ts, ExprModel::FieldAccess(Box::new(acc), name), start, p + 1);
                match p_access_loop(ts, start, p + 2, e) {
                    Err(e) => Err(e),
                    Ok((r, c2)) => Ok((r, 2 + c2)),
                }
            },
            _ => fail(ts, p + 1, "Unexpected token (expected identifier)"@),
        },
        TokenModel::LeftSquareBrackets => match p_expr(ts, p + 1) {
            Err(e) => Err(e),
            Ok((index, c)) => if tk(ts, p + 1 + c) == TokenModel::RightSquareBrackets {
                let e = mk(ts, ExprModel::ListAccess(Box::new(acc), Box::new(index)), start, p + 1 + c);
                match p_access_loop(ts, start, p + 2 + c, e) {
                    Err(e) => Err(e),
                    Ok((r, c2)) => Ok((r, 2 + c + c2)),
                }
            } else {
                fail_expecting(ts, p + 1 + c, "Unexpected token"@, TokenModel::RightSquareBrackets)
            },
        },
        TokenModel::LeftParenthesis => match callee(acc) {
            None => fail(ts, p + 1, "Function call of non-function expr"@),
            Some((own, name)) => match p_call_at(ts, p) {
                Err(e) => Err(e),
                Ok((args, k)) => if k == 0 {
                    // never taken: a call takes its parentheses
                    Ok((acc, 0))
                } else if tk(ts, p + k) == TokenModel::LeftParenthesis {
                    fail(ts, p + k, "No first-class fuctions, chained func calls disallowed"@)
                } else {
                    let call = if own {
                        ExprModel::OwnMethodCall(name, args)
                    } else {
                        ExprModel::FunctionCall(name, args)
                    };
                    match p_access_loop(ts, start, p + k, mk(ts, call, start, p + k - 1)) {
                        Err(e) => Err(e),
                        Ok((r, c2)) => Ok((r, k + c2)),
                    }
                },
            },
        },
        _ => Ok((acc, 0)),
    }
}

/// The expression that a single token is, if it is one.
pub open spec fn leaf(t: TokenModel) -> Option<ExprModel> {
    match t {
        TokenModel::This => Some(ExprModel::This),
        TokenModel::Float(f) => Some(ExprModel::Float(f)),
        TokenModel::Integer(i) => Some(ExprModel::Int(i)),
        TokenModel::String(s) => Some(ExprModel::String(s)),
        TokenModel::Nil => Some(ExprModel::Nil),
        TokenModel::True => Some(ExprModel::Bool(true)),
        TokenModel::False => Some(ExprModel::Bool(false)),
        TokenModel::Identifier(i) => Some(ExprModel::Identifier(i)),
        TokenModel::OwnIdentifier(f) => Some(ExprModel::OwnFieldAccess(f)),
        _ => None,
    }
}

/// A literal, a name, `this`, an own field, a group or tuple, a list, a new
/// instance or a spawn.
pub open spec fn p_primary(ts: Seq<ScannedModel>, p: int) -> Parsed<ExprPos>
    decreases left(ts, p), 50nat,
{
    match leaf(tk(ts, p)) {
        Some(e) => Ok((mk(ts, e, p, p), 1)),
        None => match tk(ts, p) {
            TokenModel::LeftParenthesis => p_group(ts, p),
            TokenModel::LeftSquareBrackets => p_list(ts, p),
            TokenModel::TypeIdentifier(_) => p_new(ts, p),
            TokenModel::Spawn => p_spawn(ts, p),
            _ => fail(ts, p, "Can't parse expression"@),
        },
    }
}

/// `(e)` is `e`; `(a, b, ...)` is a tuple (a comma may close it).
pub open spec fn p_group(ts: Seq<ScannedModel>, p: int) -> Parsed<ExprPos>
    decreases left(ts, p), 45nat,
{
    if tk(ts, p) != TokenModel::LeftParenthesis {
        fail_expecting(ts, p, "Unexpected token"@, TokenModel::LeftParenthesis)
    } else {
        match p_expr(ts, p + 1) {
            Err(e) => Err(e),
            Ok((e, c)) => if tk(ts, p + 1 + c) == TokenModel::Comma {
                match p_comma_items(ts, p + 1 + c, seq![e]) {
                    Err(err) => Err(err),
                    Ok((items, c2)) => {
                        let q = p + 1 + c + c2;
                        let res = if items.len() == 1 {
                            items[0]
                        } else {
                            mk(ts, ExprModel::TupleValue(items), p, q)
                        };
                        if tk(ts, q) == TokenModel::RightParenthesis {
                            Ok((res, (q + 1 - p) as nat))
                        } else {
                            fail_expecting(ts, q, "Unexpected token"@, TokenModel::RightParenthesis)
                        }
                    },
                }
            } else if tk(ts, p + 1 + c) == TokenModel::RightParenthesis {
                Ok((e, c + 2))
            } else {
                fail_expecting(ts, p + 1 + c, "Unexpected token"@, TokenModel::RightParenthesis)
            },
        }
    }
}

/// After `acc`, more expressions each after a comma, up to a closing
/// parenthesis (not taken; a comma right before it is).
pub open spec fn p_comma_items(ts: Seq<ScannedModel>, p: int, acc: Seq<ExprPos>) -> Parsed<Seq<ExprPos>>
    decreases left(ts, p), 198nat,
{
    if tk(ts, p) == TokenModel::Comma {
        if tk(ts, p + 1) == TokenModel::RightParenthesis {
            Ok((acc, 1))
        } else {
            match p_expr(ts, p + 1) {
                Err(e) => Err(e),
                Ok((e, c)) => match p_comma_items(ts, p + 1 + c, acc.push(e)) {
                    Err(err) => Err(err),
                    Ok((r, c2)) => Ok((r, 1 + c + c2)),
                },
            }
        }
    } else {
        Ok((acc, 0))
    }
}

/// `[a, b, ...]`: the comma after an item may be left out.
pub open spec fn p_list(ts: Seq<ScannedModel>, p: int) -> Parsed<ExprPos>
    decreases left(ts, p), 44nat,
{
    if tk(ts, p) != TokenModel::LeftSquareBrackets {
        fail_expecting(ts, p, "Unexpected token"@, TokenModel::LeftSquareBrackets)
    } else {
        match p_list_items(ts, p + 1, Seq::empty()) {
            Err(e) => Err(e),
            Ok((items, c)) => Ok((mk(ts, ExprModel::ListValue(items), p, p + c), c + 1)),
        }
    }
}

/// The items of a list from `p` on, after `acc`, up to and with `]`.
pub open spec fn p_list_items(ts: Seq<ScannedModel>, p: int, acc: Seq<ExprPos>) -> Parsed<Seq<ExprPos>>
    decreases left(ts, p), 197nat,
{
    if tk(ts, p) == TokenModel::RightSquareBrackets {
        Ok((acc, 1))
    } else {
        match p_expr(ts, p) {
            Err(e) => Err(e),
            Ok((e, c)) => if !took(ts, p, c) {
                // never taken: an expression takes a token
                Ok((acc, 0))
            } else {
                let q = if tk(ts, p + c) == TokenModel::Comma {
                    p + c + 1
                } else {
                    p + c
                };
                match p_list_items(ts, q, acc.push(e)) {
                    Err(err) => Err(err),
                    Ok((r, c2)) => Ok((r, (q - p + c2) as nat)),
                }
            },
        }
    }
}

/// `T(args)`: a new instance of the class `T`.
pub open spec fn p_new(ts: Seq<ScannedModel>, p: int) -> Parsed<ExprPos>
    decreases left(ts, p), 43nat,
{
    match tk(ts, p) {
        TokenModel::TypeIdentifier(name) => match p_call_args(ts, p + 1) {
            Err(e) => Err(e),
            Ok((args, c)) => Ok((mk(ts, ExprModel::NewClassInstance(name, args), p, p + c), 1 + c)),
        },
        _ => fail(ts, p, "Unexpected token (expected identifier)"@),
    }
}

/// `spawn T(args)`: a new active object of the class `T`.
pub open spec fn p_spawn(ts: Seq<ScannedModel>, p: int) -> Parsed<ExprPos>
    decreases left(ts, p), 42nat,
{
    if tk(ts, p) != TokenModel::Spawn {
        fail_expecting(ts, p, "Unexpected token"@, TokenModel::Spawn)
    } else {
        match tk(ts, p + 1) {
            TokenModel::TypeIdentifier(name) => match p_call_args(ts, p + 2) {
                Err(e) => Err(e),
                Ok((args, c)) => Ok((mk(ts, ExprModel::SpawnActive(name, args), p, p + 1 + c), 2 + c)),
            },
            _ => fail(ts, p + 1, "Unexpected token (expected identifier)"@),
        }
    }
}

/// The arguments of a call: `()`, or `(a, b, ...)` (a comma may close
/// them). Where the token after the one at `p` is `)`, both are taken as
/// the empty arguments.
pub open spec fn p_call_args(ts: Seq<ScannedModel>, p: int) -> Parsed<Seq<ExprPos>>
    decreases left(ts, p), 41nat,
{
    if tk(ts, p + 1) == TokenModel::RightParenthesis {
        Ok((Seq::empty(), 2))
    } else if tk(ts, p) != TokenModel::LeftParenthesis {
        fail_expecting(ts, p, "Unexpected token"@, TokenModel::LeftParenthesis)
    } else {
        match p_args_after_open(ts, p + 1) {
            Err(e) => Err(e),
            Ok((a, c)) => Ok((a, c + 1)),
        }
    }
}

/// Arguments after their `(`: at least one, up to and with `)`.
pub open spec fn p_args_after_open(ts: Seq<ScannedModel>, p: int) -> Parsed<Seq<ExprPos>>
    decreases left(ts, p), 200nat,
{
    match p_expr(ts, p) {
        Err(e) => Err(e),
        Ok((e, c)) => match p_comma_items(ts, p + c, seq![e]) {
            Err(err) => Err(err),
            Ok((items, c2)) => if tk(ts, p + c + c2) == TokenModel::RightParenthesis {
                Ok((items, c + c2 + 1))
            } else {
                fail_expecting(ts, p + c + c2, "Unexpected token"@, TokenModel::RightParenthesis)
            },
        },
    }
}

} // verus!

verus! {

/// How a parse of an expression answers its spec, `p0` and `p1` being the
/// positions before and after.
pub open spec fn gives_expr(spec: Parsed<ExprPos>, r: ParseResult<ExprWithPos>, p0: int, p1: int) -> bool {
    match spec {
        Ok((e, c)) => r matches Ok(x) && x@ == e && p1 == p0 + c,
        Err(err) => r matches Err(x) && x@ == err,
    }
}

/// How a parse of expressions answers its spec.
pub open spec fn gives_exprs(spec: Parsed<Seq<ExprPos>>, r: ParseResult<Vec<ExprWithPos>>, p0: int, p1: int) -> bool {
    match spec {
        Ok((v, c)) => r matches Ok(x) && exprs_view(x@) == v && p1 == p0 + c,
        Err(err) => r matches Err(x) && x@ == err,
    }
}

proof fn lemma_call_at(ts: Seq<ScannedModel>, p: int)
    requires
        tk(ts, p) == TokenModel::LeftParenthesis,
    ensures
        p_call_at(ts, p) == p_call_args(ts, p),
        p_call_at(ts, p) matches Ok((_, k)) ==> k >= 1,
{
}

proof fn lemma_primary_took(ts: Seq<ScannedModel>, p: int)
    requires
        p_primary(ts, p) is Ok,
    ensures
        took(ts, p, (p_primary(ts, p)->Ok_0).1),
{
}

proof fn lemma_unary_took(ts: Seq<ScannedModel>, p: int)
    requires
        p_unary(ts, p) is Ok,
    ensures
        took(ts, p, (p_unary(ts, p)->Ok_0).1),
{
    if unary_op(tk(ts, p)) is None {
        lemma_primary_took(ts, p);
    }
}

proof fn lemma_bin_took(ts: Seq<ScannedModel>, p: int, lvl: nat)
    requires
        p_bin(ts, p, lvl) is Ok,
    ensures
        took(ts, p, (p_bin(ts, p, lvl)->Ok_0).1),
    decreases 5 - lvl,
{
    if lvl >= 4 {
        lemma_unary_took(ts, p);
    } else {
        lemma_bin_took(ts, p, lvl + 1);
    }
}

pub proof fn lemma_expr_took(ts: Seq<ScannedModel>, p: int)
    requires
        p_expr(ts, p) is Ok,
    ensures
        took(ts, p, (p_expr(ts, p)->Ok_0).1),
{
    lemma_bin_took(ts, p, 0);
}

/// The models of expressions built with `args`: they are the arguments'
/// models.
proof fn lemma_args(args: Vec<ExprWithPos>, s: Seq<ExprPos>)
    requires
        s.len() == args@.len(),
        forall|i: int| 0 <= i < s.len() ==> s[i] == crate::ast::parsed::expr_view(#[trigger] args@[i]),
    ensures
        s == exprs_view(args@),
{
    assert(s =~= exprs_view(args@));
}

/// The expression `expr` from the token at `start` to the one at `end`.
fn with_pos(parser: &Parser, expr: Expr, start: usize, end: usize) -> (r: ExprWithPos)
    ensures
        r.expr == expr,
        r.pos_first == at(parser.toks(), start as int).first,
        r.pos_last == at(parser.toks(), end as int).last,
{
    let (first, last) = parser.span(start, end);
    ExprWithPos { expr, pos_first: first, pos_last: last }
}

/// The binary operator of the level `lvl` at `p` (see `op_at`).
fn op_of(parser: &Parser, p: usize, lvl: u8) -> (r: Option<BinaryOp>)
    ensures
        r == op_at(lvl as nat, tk(parser.toks(), p as int)),
{
    let t = parser.tok(p);
    if lvl == 0 {
        match t {
            Token::And => Some(BinaryOp::And),
            Token::Or => Some(BinaryOp::Or),
            _ => None,
        }
    } else if lvl == 1 {
        match t {
            Token::EqualEqual => Some(BinaryOp::IsEqual),
            Token::BangEqual => Some(BinaryOp::IsNotEqual),
            _ => None,
        }
    } else if lvl == 2 {
        match t {
            Token::Greater => Some(BinaryOp::Greater),
            Token::GreaterEqual => Some(BinaryOp::GreaterEqual),
            Token::LessEqual => Some(BinaryOp::LessEqual),
            Token::Less => Some(BinaryOp::Less),
            _ => None,
        }
    } else if lvl == 3 {
        match t {
            Token::Minus => Some(BinaryOp::Minus),
            Token::Plus => Some(BinaryOp::Plus),
            _ => None,
        }
    } else {
        match t {
            Token::Star => Some(BinaryOp::Multiply),
            Token::Slash => Some(BinaryOp::Divide),
            _ => None,
        }
    }
}

impl<'a> Parser<'a> {
    /// Parses an expression (see `p_expr`).
    pub fn parse_expr(&mut self) -> (r: ParseResult<ExprWithPos>)
        requires
            old(self).wf(),
        ensures
            final(self).toks() == old(self).toks(),
            final(self).wf(),
            gives_expr(p_expr(old(self).toks(), old(self).pos()), r, old(self).pos(), final(self).pos()),
        decreases left(old(self).toks(), old(self).pos()), 101nat,
    {
        let start = self.position();
        let l = match self.parse_bin(0) {
            Ok(e) => e,
            Err(e) => {
                return Err(e);
            },
        };
        self.parse_maybe_loop(start, l)
    }

    /// Parses `?:` and `?.` after `acc` (see `p_maybe_loop`).
    fn parse_maybe_loop(&mut self, start: usize, acc: ExprWithPos) -> (r: ParseResult<ExprWithPos>)
        requires
            old(self).wf(),
        ensures
            final(self).toks() == old(self).toks(),
            final(self).wf(),
            gives_expr(p_maybe_loop(old(self).toks(), start as int, old(self).pos(), acc@), r, old(self).pos(), final(self).pos()),
        decreases left(old(self).toks(), old(self).pos()), 99nat,
    {
        let ghost ts = self.toks();
        let ghost a = acc@;
        let p = self.position();
        if self.tok_is(p, &Token::QuestionElvis) {
            self.set_position(p + 1);
            let right = match self.parse_bin(0) {
                Ok(e) => e,
                Err(e) => {
                    return Err(e);
                },
            };
            let ghost b = right@;
            let end = self.position() - 1;
            let e = with_pos(self, Expr::BinOp { left: Box::new(acc), right: Box::new(right), op: BinaryOp::Elvis }, start, end);
            assert(e@ == mk(ts, ExprModel::BinOp(Box::new(a), Box::new(b), BinaryOp::Elvis), start as int, end as int)) by {
                reveal_with_fuel(crate::ast::parsed::expr_view, 1);
            }
            self.parse_maybe_loop(start, e)
        } else if self.tok_is(p, &Token::QuestionDot) {
            let name = match self.tok(p + 1) {
                Token::Identifier(name) => name,
                _ => {
                    return self.error_at(p + 1, "Unexpected token (expected identifier)");
                },
            };
            self.set_position(p + 2);
            let args = match self.parse_function_call_args() {
                Ok(a) => a,
                Err(e) => {
                    return Err(e);
                },
            };
            let ghost v = exprs_view(args@);
            let ghost nm = name@;
            let end = self.position() - 1;
            let e = with_pos(self, Expr::MaybeMethodCall { object: Box::new(acc), method: name, args }, start, end);
            assert(e@ == mk(ts, ExprModel::MaybeMethodCall(Box::new(a), nm, v), start as int, end as int)) by {
                reveal_with_fuel(crate::ast::parsed::expr_view, 1);
                if let ExprModel::MaybeMethodCall(_, _, s) = e@.expr {
                    if let Expr::MaybeMethodCall { args: xs, .. } = e.expr {
                        lemma_args(xs, s);
                    }
                }
            }
            self.parse_maybe_loop(start, e)
        } else {
            Ok(acc)
        }
    }

    /// Parses the level `lvl` of binary operators (see `p_bin`).
    fn parse_bin(&mut self, lvl: u8) -> (r: ParseResult<ExprWithPos>)
        requires
            old(self).wf(),
            lvl <= 4,
        ensures
            final(self).toks() == old(self).toks(),
            final(self).wf(),
            gives_expr(p_bin(old(self).toks(), old(self).pos(), lvl as nat), r, old(self).pos(), final(self).pos()),
        decreases left(old(self).toks(), old(self).pos()), rank(lvl as nat) + 1,
    {
        let start = self.position();
        let l = if lvl >= 4 {
            self.parse_expr_unary()
        } else {
            self.parse_bin(lvl + 1)
        };
        let l = match l {
            Ok(e) => e,
            Err(e) => {
                return Err(e);
            },
        };
        self.parse_bin_loop(start, l, lvl)
    }

    /// Parses more operators of the level `lvl` after `acc` (see
    /// `p_bin_loop`).
    fn parse_bin_loop(&mut self, start: usize, acc: ExprWithPos, lvl: u8) -> (r: ParseResult<ExprWithPos>)
        requires
            old(self).wf(),
            lvl <= 4,
        ensures
            final(self).toks() == old(self).toks(),
            final(self).wf(),
            gives_expr(
                p_bin_loop(old(self).toks(), start as int, old(self).pos(), acc@, lvl as nat),
                r,
                old(self).pos(),
                final(self).pos(),
            ),
        decreases left(old(self).toks(), old(self).pos()), rank(lvl as nat),
    {
        let ghost ts = self.toks();
        let ghost a = acc@;
        let p = self.position();
        let op = match op_of(self, p, lvl) {
            Some(op) => op,
            None => {
                return Ok(acc);
            },
        };
        self.set_position(p + 1);
        let right = if lvl >= 4 {
            self.parse_expr_unary()
        } else {
            self.parse_bin(lvl + 1)
        };
        let right = match right {
            Ok(e) => e,
            Err(e) => {
                return Err(e);
            },
        };
        let ghost b = right@;
        let end = self.position() - 1;
        let e = with_pos(self, Expr::BinOp { left: Box::new(acc), right: Box::new(right), op }, start, end);
        assert(e@ == mk(ts, ExprModel::BinOp(Box::new(a), Box::new(b), op), start as int, end as int)) by {
            reveal_with_fuel(crate::ast::parsed::expr_view, 1);
        }
        self.parse_bin_loop(start, e, lvl)
    }

    /// Parses a unary expression (see `p_unary`).
    fn parse_expr_unary(&mut self) -> (r: ParseResult<ExprWithPos>)
        requires
            old(self).wf(),
        ensures
            final(self).toks() == old(self).toks(),
            final(self).wf(),
            gives_expr(p_unary(old(self).toks(), old(self).pos()), r, old(self).pos(), final(self).pos()),
        decreases left(old(self).toks(), old(self).pos()), 70nat,
    {
        let ghost ts = self.toks();
        let start = self.position();
        let op = if self.tok_is(start, &Token::Minus) {
            Some(UnaryOp::Negate)
        } else if self.tok_is(start, &Token::Not) {
            Some(UnaryOp::Not)
        } else {
            None
        };
        match op {
            Some(op) => {
                self.set_position(start + 1);
                let operand = match self.parse_method_or_field_access() {
                    Ok(e) => e,
                    Err(e) => {
                        return Err(e);
                    },
                };
                let ghost b = operand@;
                let end = self.position() - 1;
                let e = with_pos(self, Expr::UnaryOp { operand: Box::new(operand), op }, start, end);
                assert(e@ == mk(ts, ExprModel::UnaryOp(op, Box::new(b)), start as int, end as int)) by {
                    reveal_with_fuel(crate::ast::parsed::expr_view, 1);
                }
                Ok(e)
            },
            None => self.parse_method_or_field_access(),
        }
    }
}

} // verus!

verus! {

impl<'a> Parser<'a> {
    /// Parses an access expression (see `p_access`).
    fn parse_method_or_field_access(&mut self) -> (r: ParseResult<ExprWithPos>)
        requires
            old(self).wf(),
        ensures
            final(self).toks() == old(self).toks(),
            final(self).wf(),
            gives_expr(p_access(old(self).toks(), old(self).pos()), r, old(self).pos(), final(self).pos()),
        decreases left(old(self).toks(), old(self).pos()), 60nat,
    {
        let start = self.position();
        let first = match self.parse_expr_primary() {
            Ok(e) => e,
            Err(e) => {
                return Err(e);
            },
        };
        self.parse_access_loop(start, first)
    }

    /// Parses accesses and calls after `acc` (see `p_access_loop`).
    fn parse_access_loop(&mut self, start: usize, acc: ExprWithPos) -> (r: ParseResult<ExprWithPos>)
        requires
            old(self).wf(),
        ensures
            final(self).toks() == old(self).toks(),
            final(self).wf(),
            gives_expr(p_access_loop(old(self).toks(), start as int, old(self).pos(), acc@), r, old(self).pos(), final(self).pos()),
        decreases left(old(self).toks(), old(self).pos()), 59nat,
    {
        let p = self.position();
        if self.tok_is(p, &Token::Dot) {
            self.parse_dot_access(start, acc)
        } else if self.tok_is(p, &Token::LeftSquareBrackets) {
            self.parse_index_access(start, acc)
        } else if self.tok_is(p, &Token::LeftParenthesis) {
            self.parse_call_access(start, acc)
        } else {
            Ok(acc)
        }
    }

    /// `.f` or `.m(args)` after `acc` (see `p_access_loop`).
    fn parse_dot_access(&mut self, start: usize, acc: ExprWithPos) -> (r: ParseResult<ExprWithPos>)
        requires
            old(self).wf(),
            tk(old(self).toks(), old(self).pos()) == TokenModel::Dot,
        ensures
            final(self).toks() == old(self).toks(),
            final(self).wf(),
            gives_expr(p_access_loop(old(self).toks(), start as int, old(self).pos(), acc@), r, old(self).pos(), final(self).pos()),
        decreases left(old(self).toks(), old(self).pos()), 58nat,
    {
        let ghost ts = self.toks();
        let ghost a = acc@;
        let p = self.position();
        let name = match self.tok(p + 1) {
            Token::Identifier(name) => name,
            _ => {
                return self.error_at(p + 1, "Unexpected token (expected identifier)");
            },
        };
        let ghost nm = name@;
        if self.tok_is(p + 2, &Token::LeftParenthesis) {
            self.set_position(p + 2);
            let args = match self.parse_function_call_args() {
                Ok(a) => a,
                Err(e) => {
                    return Err(e);
                },
            };
            let ghost v = exprs_view(args@);
            let end = self.position() - 1;
            let e = with_pos(self, Expr::MethodCall { object: Box::new(acc), method: name, args }, start, end);
            assert(e@ == mk(ts, ExprModel::MethodCall(Box::new(a), nm, v), start as int, end as int)) by {
                reveal_with_fuel(crate::ast::parsed::expr_view, 1);
                if let ExprModel::MethodCall(_, _, s) = e@.expr {
                    if let Expr::MethodCall { args: xs, .. } = e.expr {
                        lemma_args(xs, s);
                    }
                }
            }
            self.parse_access_loop(start, e)
        } else {
            self.set_position(p + 2);
            let e = with_pos(self, Expr::FieldAccess { object: Box::new(acc), field: name }, start, p + 1);
            assert(e@ == mk(ts, ExprModel::FieldAccess(Box::new(a), nm), start as int, p + 1)) by {
                reveal_with_fuel(crate::ast::parsed::expr_view, 1);
            }
            self.parse_access_loop(start, e)
        }
    }

    /// `[i]` after `acc` (see `p_access_loop`).
    fn parse_index_access(&mut self, start: usize, acc: ExprWithPos) -> (r: ParseResult<ExprWithPos>)
        requires
            old(self).wf(),
            tk(old(self).toks(), old(self).pos()) == TokenModel::LeftSquareBrackets,
        ensures
            final(self).toks() == old(self).toks(),
            final(self).wf(),
            gives_expr(p_access_loop(old(self).toks(), start as int, old(self).pos(), acc@), r, old(self).pos(), final(self).pos()),
        decreases left(old(self).toks(), old(self).pos()), 58nat,
    {
        let ghost ts = self.toks();
        let ghost a = acc@;
        let p = self.position();
        self.set_position(p + 1);
        let index = match self.parse_expr() {
            Ok(e) => e,
            Err(e) => {
                return Err(e);
            },
        };
        let ghost b = index@;
        let q = self.position();
        if !self.tok_is(q, &Token::RightSquareBrackets) {
            return self.error_expecting(q, "Unexpected token", Token::RightSquareBrackets);
        }
        self.set_position(q + 1);
        let e = with_pos(self, Expr::ListAccess { list: Box::new(acc), index: Box::new(index) }, start, q);
        assert(e@ == mk(ts, ExprModel::ListAccess(Box::new(a), Box::new(b)), start as int, q as int)) by {
            reveal_with_fuel(crate::ast::parsed::expr_view, 1);
        }
        self.parse_access_loop(start, e)
    }

    /// A call `(args)` on `acc` (see `p_access_loop`).
    fn parse_call_access(&mut self, start: usize, acc: ExprWithPos) -> (r: ParseResult<ExprWithPos>)
        requires
            old(self).wf(),
            tk(old(self).toks(), old(self).pos()) == TokenModel::LeftParenthesis,
        ensures
            final(self).toks() == old(self).toks(),
            final(self).wf(),
            gives_expr(p_access_loop(old(self).toks(), start as int, old(self).pos(), acc@), r, old(self).pos(), final(self).pos()),
        decreases left(old(self).toks(), old(self).pos()), 58nat,
    {
        let ghost ts = self.toks();
        let ghost a = acc@;
        let p = self.position();
        let (own, name) = match &acc.expr {
            Expr::Identifier(name) => (false, name.clone()),
            Expr::OwnFieldAccess { field } => (true, field.clone()),
            _ => {
                assert(callee(a) is None) by {
                    reveal_with_fuel(crate::ast::parsed::expr_view, 1);
                }
                return self.error_at(p + 1, "Function call of non-function expr");
            },
        };
        assert(callee(a) == Some((own, name@))) by {
            reveal_with_fuel(crate::ast::parsed::expr_view, 1);
        }
        proof {
            lemma_call_at(ts, p as int);
        }
        let args = match self.parse_function_call_args() {
            Ok(a) => a,
            Err(e) => {
                return Err(e);
            },
        };
        let ghost v = exprs_view(args@);
        let ghost nm = name@;
        let q = self.position();
        if self.tok_is(q, &Token::LeftParenthesis) {
            return self.error_at(q, "No first-class fuctions, chained func calls disallowed");
        }
        let e = if own {
            let e = with_pos(self, Expr::OwnMethodCall { method: name, args }, start, q - 1);
            assert(e@ == mk(ts, ExprModel::OwnMethodCall(nm, v), start as int, q - 1)) by {
                reveal_with_fuel(crate::ast::parsed::expr_view, 1);
                if let ExprModel::OwnMethodCall(_, s) = e@.expr {
                    if let Expr::OwnMethodCall { args: xs, .. } = e.expr {
                        lemma_args(xs, s);
                    }
                }
            }
            e
        } else {
            let e = with_pos(self, Expr::FunctionCall { function: name, args }, start, q - 1);
            assert(e@ == mk(ts, ExprModel::FunctionCall(nm, v), start as int, q - 1)) by {
                reveal_with_fuel(crate::ast::parsed::expr_view, 1);
                if let ExprModel::FunctionCall(_, s) = e@.expr {
                    if let Expr::FunctionCall { args: xs, .. } = e.expr {
                        lemma_args(xs, s);
                    }
                }
            }
            e
        };
        self.parse_access_loop(start, e)
    }

    /// Parses a primary expression (see `p_primary`).
    pub fn parse_expr_primary(&mut self) -> (r: ParseResult<ExprWithPos>)
        requires
            old(self).wf(),
        ensures
            final(self).toks() == old(self).toks(),
            final(self).wf(),
            gives_expr(p_primary(old(self).toks(), old(self).pos()), r, old(self).pos(), final(self).pos()),
        decreases left(old(self).toks(), old(self).pos()), 50nat,
    {
        let ghost ts = self.toks();
        let start = self.position();
        let single = match self.tok(start) {
            Token::This => Some(Expr::This),
            Token::Float(f) => Some(Expr::Float(f)),
            Token::Integer(i) => Some(Expr::Int(i)),
            Token::String(s) => Some(Expr::String(s)),
            Token::Nil => Some(Expr::Nil),
            Token::True => Some(Expr::Bool(true)),
            Token::False => Some(Expr::Bool(false)),
            Token::Identifier(i) => Some(Expr::Identifier(i)),
            Token::OwnIdentifier(f) => Some(Expr::OwnFieldAccess { field: f }),
            _ => None,
        };
        match single {
            Some(x) => {
                let ghost m = leaf(tk(ts, start as int))->0;
                self.set_position(start + 1);
                let e = with_pos(self, x, start, start);
                assert(e@ == mk(ts, m, start as int, start as int)) by {
                    reveal_with_fuel(crate::ast::parsed::expr_view, 1);
                }
                Ok(e)
            },
            None => {
                if self.tok_is(start, &Token::LeftParenthesis) {
                    self.parse_group_or_tuple()
                } else if self.tok_is(start, &Token::LeftSquareBrackets) {
                    self.parse_list_literal()
                } else if self.tok_is(start, &Token::Spawn) {
                    self.parse_spawn_active_expr()
                } else {
                    match self.tok(start) {
                        Token::TypeIdentifier(_) => self.parse_new_class_instance_expr(),
                        _ => self.error_at(start, "Can't parse expression"),
                    }
                }
            },
        }
    }

    /// Parses a group or a tuple (see `p_group`).
    fn parse_group_or_tuple(&mut self) -> (r: ParseResult<ExprWithPos>)
        requires
            old(self).wf(),
        ensures
            final(self).toks() == old(self).toks(),
            final(self).wf(),
            gives_expr(p_group(old(self).toks(), old(self).pos()), r, old(self).pos(), final(self).pos()),
        decreases left(old(self).toks(), old(self).pos()), 45nat,
    {
        let ghost ts = self.toks();
        let start = self.position();
        if !self.tok_is(start, &Token::LeftParenthesis) {
            return self.error_expecting(start, "Unexpected token", Token::LeftParenthesis);
        }
        self.set_position(start + 1);
        let first = match self.parse_expr() {
            Ok(e) => e,
            Err(e) => {
                return Err(e);
            },
        };
        let p = self.position();
        if self.tok_is(p, &Token::Comma) {
            let ghost f = first@;
            let mut items: Vec<ExprWithPos> = Vec::new();
            items.push(first);
            assert(exprs_view(items@) =~= seq![f]);
            let items = match self.parse_comma_items(items) {
                Ok(v) => v,
                Err(e) => {
                    return Err(e);
                },
            };
            let ghost v = exprs_view(items@);
            let q = self.position();
            if !self.tok_is(q, &Token::RightParenthesis) {
                return self.error_expecting(q, "Unexpected token", Token::RightParenthesis);
            }
            let result = if items.len() == 1 {
                let mut items = items;
                let ghost one = items@;
                match items.pop() {
                    Some(e) => e,
                    None => with_pos(self, Expr::Nil, start, q),
                }
            } else {
                let e = with_pos(self, Expr::TupleValue(items), start, q);
                assert(e@ == mk(ts, ExprModel::TupleValue(v), start as int, q as int)) by {
                    reveal_with_fuel(crate::ast::parsed::expr_view, 1);
                    if let ExprModel::TupleValue(s) = e@.expr {
                        if let Expr::TupleValue(xs) = e.expr {
                            lemma_args(xs, s);
                        }
                    }
                }
                e
            };
            self.set_position(q + 1);
            Ok(result)
        } else if self.tok_is(p, &Token::RightParenthesis) {
            self.set_position(p + 1);
            Ok(first)
        } else {
            self.error_expecting(p, "Unexpected token", Token::RightParenthesis)
        }
    }

    /// Parses more expressions each after a comma (see `p_comma_items`).
    fn parse_comma_items(&mut self, acc: Vec<ExprWithPos>) -> (r: ParseResult<Vec<ExprWithPos>>)
        requires
            old(self).wf(),
        ensures
            final(self).toks() == old(self).toks(),
            final(self).wf(),
            gives_exprs(p_comma_items(old(self).toks(), old(self).pos(), exprs_view(acc@)), r, old(self).pos(), final(self).pos()),
        decreases left(old(self).toks(), old(self).pos()), 198nat,
    {
        let p = self.position();
        if !self.tok_is(p, &Token::Comma) {
            return Ok(acc);
        }
        if self.tok_is(p + 1, &Token::RightParenthesis) {
            self.set_position(p + 1);
            return Ok(acc);
        }
        self.set_position(p + 1);
        let e = match self.parse_expr() {
            Ok(e) => e,
            Err(e) => {
                return Err(e);
            },
        };
        let mut items = acc;
        let ghost before = exprs_view(items@);
        let ghost m = e@;
        items.push(e);
        assert(exprs_view(items@) =~= before.push(m));
        self.parse_comma_items(items)
    }

    /// Parses a list literal (see `p_list`).
    fn parse_list_literal(&mut self) -> (r: ParseResult<ExprWithPos>)
        requires
            old(self).wf(),
        ensures
            final(self).toks() == old(self).toks(),
            final(self).wf(),
            gives_expr(p_list(old(self).toks(), old(self).pos()), r, old(self).pos(), final(self).pos()),
        decreases left(old(self).toks(), old(self).pos()), 44nat,
    {
        let ghost ts = self.toks();
        let start = self.position();
        if !self.tok_is(start, &Token::LeftSquareBrackets) {
            return self.error_expecting(start, "Unexpected token", Token::LeftSquareBrackets);
        }
        self.set_position(start + 1);
        let items: Vec<ExprWithPos> = Vec::new();
        assert(exprs_view(items@) =~= Seq::<ExprPos>::empty());
        let items = match self.parse_list_items(items) {
            Ok(v) => v,
            Err(e) => {
                return Err(e);
            },
        };
        let ghost v = exprs_view(items@);
        let end = self.position() - 1;
        let e = with_pos(self, Expr::ListValue(items), start, end);
        assert(e@ == mk(ts, ExprModel::ListValue(v), start as int, end as int)) by {
            reveal_with_fuel(crate::ast::parsed::expr_view, 1);
            if let ExprModel::ListValue(s) = e@.expr {
                if let Expr::ListValue(xs) = e.expr {
                    lemma_args(xs, s);
                }
            }
        }
        Ok(e)
    }

    /// Parses the items of a list after `acc` (see `p_list_items`).
    fn parse_list_items(&mut self, acc: Vec<ExprWithPos>) -> (r: ParseResult<Vec<ExprWithPos>>)
        requires
            old(self).wf(),
        ensures
            final(self).toks() == old(self).toks(),
            final(self).wf(),
            gives_exprs(p_list_items(old(self).toks(), old(self).pos(), exprs_view(acc@)), r, old(self).pos(), final(self).pos()),
        decreases left(old(self).toks(), old(self).pos()), 197nat,
    {
        let ghost ts = self.toks();
        let p = self.position();
        if self.tok_is(p, &Token::RightSquareBrackets) {
            self.set_position(p + 1);
            return Ok(acc);
        }
        let e = match self.parse_expr() {
            Ok(e) => e,
            Err(e) => {
                return Err(e);
            },
        };
        proof {
            lemma_expr_took(ts, p as int);
        }
        let q = self.position();
        if self.tok_is(q, &Token::Comma) {
            self.set_position(q + 1);
        }
        let mut items = acc;
        let ghost before = exprs_view(items@);
        let ghost m = e@;
        items.push(e);
        assert(exprs_view(items@) =~= before.push(m));
        self.parse_list_items(items)
    }

    /// Parses a new instance (see `p_new`).
    fn parse_new_class_instance_expr(&mut self) -> (r: ParseResult<ExprWithPos>)
        requires
            old(self).wf(),
        ensures
            final(self).toks() == old(self).toks(),
            final(self).wf(),
            gives_expr(p_new(old(self).toks(), old(self).pos()), r, old(self).pos(), final(self).pos()),
        decreases left(old(self).toks(), old(self).pos()), 43nat,
    {
        let ghost ts = self.toks();
        let start = self.position();
        let typename = match self.tok(start) {
            Token::TypeIdentifier(name) => name,
            _ => {
                return self.error_at(start, "Unexpected token (expected identifier)");
            },
        };
        self.set_position(start + 1);
        let args = match self.parse_function_call_args() {
            Ok(a) => a,
            Err(e) => {
                return Err(e);
            },
        };
        let ghost v = exprs_view(args@);
        let ghost n = typename@;
        let end = self.position() - 1;
        let e = with_pos(self, Expr::NewClassInstance { typename, args }, start, end);
        assert(e@ == mk(ts, ExprModel::NewClassInstance(n, v), start as int, end as int)) by {
            reveal_with_fuel(crate::ast::parsed::expr_view, 1);
            if let ExprModel::NewClassInstance(_, s) = e@.expr {
                if let Expr::NewClassInstance { args: xs, .. } = e.expr {
                    lemma_args(xs, s);
                }
            }
        }
        Ok(e)
    }

    /// Parses a spawn (see `p_spawn`).
    fn parse_spawn_active_expr(&mut self) -> (r: ParseResult<ExprWithPos>)
        requires
            old(self).wf(),
        ensures
            final(self).toks() == old(self).toks(),
            final(self).wf(),
            gives_expr(p_spawn(old(self).toks(), old(self).pos()), r, old(self).pos(), final(self).pos()),
        decreases left(old(self).toks(), old(self).pos()), 42nat,
    {
        let ghost ts = self.toks();
        let start = self.position();
        if !self.tok_is(start, &Token::Spawn) {
            return self.error_expecting(start, "Unexpected token", Token::Spawn);
        }
        let typename = match self.tok(start + 1) {
            Token::TypeIdentifier(name) => name,
            _ => {
                return self.error_at(start + 1, "Unexpected token (expected identifier)");
            },
        };
        self.set_position(start + 2);
        let args = match self.parse_function_call_args() {
            Ok(a) => a,
            Err(e) => {
                return Err(e);
            },
        };
        let ghost v = exprs_view(args@);
        let ghost n = typename@;
        let end = self.position() - 1;
        let e = with_pos(self, Expr::SpawnActive { typename, args }, start, end);
        assert(e@ == mk(ts, ExprModel::SpawnActive(n, v), start as int, end as int)) by {
            reveal_with_fuel(crate::ast::parsed::expr_view, 1);
            if let ExprModel::SpawnActive(_, s) = e@.expr {
                if let Expr::SpawnActive { args: xs, .. } = e.expr {
                    lemma_args(xs, s);
                }
            }
        }
        Ok(e)
    }

    /// Parses the arguments of a call (see `p_call_args`).
    pub(crate) fn parse_function_call_args(&mut self) -> (r: ParseResult<Vec<ExprWithPos>>)
        requires
            old(self).wf(),
        ensures
            final(self).toks() == old(self).toks(),
            final(self).wf(),
            gives_exprs(p_call_args(old(self).toks(), old(self).pos()), r, old(self).pos(), final(self).pos()),
        decreases left(old(self).toks(), old(self).pos()), 41nat,
    {
        let start = self.position();
        if self.tok_is(start + 1, &Token::RightParenthesis) {
            self.set_position(start + 2);
            let v: Vec<ExprWithPos> = Vec::new();
            assert(exprs_view(v@) =~= Seq::<ExprPos>::empty());
            return Ok(v);
        }
        if !self.tok_is(start, &Token::LeftParenthesis) {
            return self.error_expecting(start, "Unexpected token", Token::LeftParenthesis);
        }
        self.set_position(start + 1);
        self.parse_args_after_open()
    }

    /// Parses arguments after their `(` (see `p_args_after_open`).
    fn parse_args_after_open(&mut self) -> (r: ParseResult<Vec<ExprWithPos>>)
        requires
            old(self).wf(),
        ensures
            final(self).toks() == old(self).toks(),
            final(self).wf(),
            gives_exprs(p_args_after_open(old(self).toks(), old(self).pos()), r, old(self).pos(), final(self).pos()),
        decreases left(old(self).toks(), old(self).pos()), 200nat,
    {
        let first = match self.parse_expr() {
            Ok(e) => e,
            Err(e) => {
                return Err(e);
            },
        };
        let ghost f = first@;
        let mut items: Vec<ExprWithPos> = Vec::new();
        items.push(first);
        assert(exprs_view(items@) =~= seq![f]);
        let items = match self.parse_comma_items(items) {
            Ok(v) => v,
            Err(e) => {
                return Err(e);
            },
        };
        let q = self.position();
        if !self.tok_is(q, &Token::RightParenthesis) {
            return self.error_expecting(q, "Unexpected token", Token::RightParenthesis);
        }
        self.set_position(q + 1);
        Ok(items)
    }
}

} // verus!
