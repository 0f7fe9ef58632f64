//! Recursive-descent parsing of types from a file's tokens.
//!
//! Each `p_*` spec function says what the parser method of the same name
//! gives on the tokens from a position on: the result and the number of
//! tokens it takes, or the error. A position past the last token reads as
//! the end of the file.
use vstd::prelude::*;

use crate::parsing::scanner::{scanned_model, ScannedModel, ScannedToken, Token, TokenModel};
use crate::text::same_text;
use crate::types::{lemma_model_tuple, models_of, ParsedType, Type, TypeModel};

verus! {

/// A parse error: the token it is at, a message, and the token that was
/// expected there, if one was.
#[derive(Debug)]
pub struct ParseError {
    pub error_at: ScannedToken,
    pub error_msg: &'static str,
    pub expected: Option<Token>,
}

/// A parse error as plain values.
pub ghost struct PErr {
    pub at: ScannedModel,
    pub msg: Seq<char>,
    pub expected: Option<TokenModel>,
}

impl View for ParseError {
    type V = PErr;

    open spec fn view(&self) -> PErr {
        PErr {
            at: self.error_at@,
            msg: self.error_msg@,
            expected: match self.expected {
                Some(t) => Some(t@),
                None => None,
            },
        }
    }
}

pub type ParseResult<T> = Result<T, ParseError>;

/// What a parse gives: the value and the number of tokens taken, or the
/// error.
pub type Parsed<X> = Result<(X, nat), PErr>;

/// The token at `p`; the end of the file outside the tokens.
pub open spec fn tk(ts: Seq<ScannedModel>, p: int) -> TokenModel {
    if 0 <= p < ts.len() {
        ts[p].token
    } else {
        TokenModel::EOF
    }
}

/// The scanned token at `p`; outside the tokens, the end of the file at 0.
pub open spec fn at(ts: Seq<ScannedModel>, p: int) -> ScannedModel {
    if 0 <= p < ts.len() {
        ts[p]
    } else {
        ScannedModel { token: TokenModel::EOF, first: 0, last: 0 }
    }
}

/// The number of tokens from `p` on (a termination measure).
pub open spec fn left(ts: Seq<ScannedModel>, p: int) -> nat {
    if p < ts.len() {
        (ts.len() - p) as nat
    } else {
        0
    }
}

/// A parse that took at least one token, from a position inside the
/// tokens.
pub open spec fn took(ts: Seq<ScannedModel>, p: int, c: nat) -> bool {
    c >= 1 && 0 <= p < ts.len()
}

/// The error `msg` at `p`.
pub open spec fn fail<X>(ts: Seq<ScannedModel>, p: int, msg: Seq<char>) -> Parsed<X> {
    Err(PErr { at: at(ts, p), msg, expected: None })
}

/// The error `msg` at `p`, where `t` was expected.
pub open spec fn fail_expecting<X>(ts: Seq<ScannedModel>, p: int, msg: Seq<char>, t: TokenModel) -> Parsed<X> {
    Err(PErr { at: at(ts, p), msg, expected: Some(t) })
}

/// A number that tells the token kinds without content apart; 0 for the
/// others.
pub open spec fn kind_of(t: TokenModel) -> int {
    match t {
        TokenModel::LeftParenthesis => 1,
        TokenModel::RightParenthesis => 2,
        TokenModel::LeftCurlyBrackets => 3,
        TokenModel::RightCurlyBrackets => 4,
        TokenModel::LeftSquareBrackets => 5,
        TokenModel::RightSquareBrackets => 6,
        TokenModel::Comma => 7,
        TokenModel::Dot => 8,
        TokenModel::Semicolon => 9,
        TokenModel::Plus => 10,
        TokenModel::Minus => 11,
        TokenModel::Star => 12,
        TokenModel::Slash => 13,
        TokenModel::Bang => 14,
        TokenModel::BangEqual => 15,
        TokenModel::Greater => 16,
        TokenModel::GreaterEqual => 17,
        TokenModel::Less => 18,
        TokenModel::LessEqual => 19,
        TokenModel::Equal => 20,
        TokenModel::EqualEqual => 21,
        TokenModel::Question => 22,
        TokenModel::QuestionDot => 23,
        TokenModel::QuestionElvis => 24,
        TokenModel::Active => 25,
        TokenModel::Class => 26,
        TokenModel::Spawn => 27,
        TokenModel::If => 28,
        TokenModel::Else => 29,
        TokenModel::Elif => 30,
        TokenModel::While => 31,
        TokenModel::Foreach => 32,
        TokenModel::Break => 33,
        TokenModel::Continue => 34,
        TokenModel::In => 35,
        TokenModel::Fun => 36,
        TokenModel::From => 37,
        TokenModel::Import => 38,
        TokenModel::True => 39,
        TokenModel::False => 40,
        TokenModel::Nil => 41,
        TokenModel::And => 42,
        TokenModel::Or => 43,
        TokenModel::Not => 44,
        TokenModel::Void => 45,
        TokenModel::This => 46,
        TokenModel::Return => 47,
        TokenModel::EOF => 48,
        _ => 0,
    }
}

proof fn lemma_kind_of(a: TokenModel, b: TokenModel)
    requires
        kind_of(b) != 0,
    ensures
        (kind_of(a) == kind_of(b)) == (a == b),
{
}

/// `kind_of` on a token.
fn unit_kind(t: &Token) -> (r: u8)
    ensures
        r as int == kind_of(t@),
{
    match t {
        Token::LeftParenthesis => 1,
        Token::RightParenthesis => 2,
        Token::LeftCurlyBrackets => 3,
        Token::RightCurlyBrackets => 4,
        Token::LeftSquareBrackets => 5,
        Token::RightSquareBrackets => 6,
        Token::Comma => 7,
        Token::Dot => 8,
        Token::Semicolon => 9,
        Token::Plus => 10,
        Token::Minus => 11,
        Token::Star => 12,
        Token::Slash => 13,
        Token::Bang => 14,
        Token::BangEqual => 15,
        Token::Greater => 16,
        Token::GreaterEqual => 17,
        Token::Less => 18,
        Token::LessEqual => 19,
        Token::Equal => 20,
        Token::EqualEqual => 21,
        Token::Question => 22,
        Token::QuestionDot => 23,
        Token::QuestionElvis => 24,
        Token::Active => 25,
        Token::Class => 26,
        Token::Spawn => 27,
        Token::If => 28,
        Token::Else => 29,
        Token::Elif => 30,
        Token::While => 31,
        Token::Foreach => 32,
        Token::Break => 33,
        Token::Continue => 34,
        Token::In => 35,
        Token::Fun => 36,
        Token::From => 37,
        Token::Import => 38,
        Token::True => 39,
        Token::False => 40,
        Token::Nil => 41,
        Token::And => 42,
        Token::Or => 43,
        Token::Not => 44,
        Token::Void => 45,
        Token::This => 46,
        Token::Return => 47,
        Token::EOF => 48,
        _ => 0,
    }
}

/// A copy of a token.
fn copy_token(t: &Token) -> (r: Token)
    ensures
        r@ == t@,
{
    match t {
        Token::Identifier(s) => Token::Identifier(s.clone()),
        Token::OwnIdentifier(s) => Token::OwnIdentifier(s.clone()),
        Token::TypeIdentifier(s) => Token::TypeIdentifier(s.clone()),
        Token::String(s) => Token::String(s.clone()),
        Token::Float(s) => Token::Float(s.clone()),
        Token::Integer(v) => Token::Integer(*v),
        Token::LeftParenthesis => Token::LeftParenthesis,
        Token::RightParenthesis => Token::RightParenthesis,
        Token::LeftCurlyBrackets => Token::LeftCurlyBrackets,
        Token::RightCurlyBrackets => Token::RightCurlyBrackets,
        Token::LeftSquareBrackets => Token::LeftSquareBrackets,
        Token::RightSquareBrackets => Token::RightSquareBrackets,
        Token::Comma => Token::Comma,
        Token::Dot => Token::Dot,
        Token::Semicolon => Token::Semicolon,
        Token::Plus => Token::Plus,
        Token::Minus => Token::Minus,
        Token::Star => Token::Star,
        Token::Slash => Token::Slash,
        Token::Bang => Token::Bang,
        Token::BangEqual => Token::BangEqual,
        Token::Greater => Token::Greater,
        Token::GreaterEqual => Token::GreaterEqual,
        Token::Less => Token::Less,
        Token::LessEqual => Token::LessEqual,
        Token::Equal => Token::Equal,
        Token::EqualEqual => Token::EqualEqual,
        Token::Question => Token::Question,
        Token::QuestionDot => Token::QuestionDot,
        Token::QuestionElvis => Token::QuestionElvis,
        Token::Active => Token::Active,
        Token::Class => Token::Class,
        Token::Spawn => Token::Spawn,
        Token::If => Token::If,
        Token::Else => Token::Else,
        Token::Elif => Token::Elif,
        Token::While => Token::While,
        Token::Foreach => Token::Foreach,
        Token::Break => Token::Break,
        Token::Continue => Token::Continue,
        Token::In => Token::In,
        Token::Fun => Token::Fun,
        Token::From => Token::From,
        Token::Import => Token::Import,
        Token::True => Token::True,
        Token::False => Token::False,
        Token::Nil => Token::Nil,
        Token::And => Token::And,
        Token::Or => Token::Or,
        Token::Not => Token::Not,
        Token::Void => Token::Void,
        Token::This => Token::This,
        Token::Return => Token::Return,
        Token::EOF => Token::EOF,
    }
}

/// The type that a type identifier names: a basic type by its name, else
/// a user type.
pub open spec fn named_type(s: Seq<char>) -> TypeModel<Seq<char>> {
    if s == "Int"@ {
        TypeModel::Int
    } else if s == "Float"@ {
        TypeModel::Float
    } else if s == "Bool"@ {
        TypeModel::Bool
    } else if s == "String"@ {
        TypeModel::String
    } else {
        TypeModel::Custom(s)
    }
}

/// Wraps `t` in one maybe per `?` from `p` on.
pub open spec fn p_type_suffix(ts: Seq<ScannedModel>, p: int, t: TypeModel<Seq<char>>) -> (TypeModel<Seq<char>>, nat)
    decreases left(ts, p),
{
    if tk(ts, p) == TokenModel::Question {
        let r = p_type_suffix(ts, p + 1, TypeModel::Maybe(Box::new(t)));
        (r.0, r.1 + 1)
    } else {
        (t, 0)
    }
}

/// A type without its `?`s: `[T]`, a tuple `(T, U, ...)` (one item is
/// that item; a comma may close the list; none is an error), or a type
/// identifier.
pub open spec fn p_type_base(ts: Seq<ScannedModel>, p: int) -> Parsed<TypeModel<Seq<char>>>
    decreases left(ts, p), 0nat,
{
    match tk(ts, p) {
        TokenModel::LeftSquareBrackets => match p_type(ts, p + 1) {
            Err(e) => Err(e),
            Ok((t, c)) => if tk(ts, p + 1 + c) == TokenModel::RightSquareBrackets {
                Ok((TypeModel::List(Box::new(t)), c + 2))
            } else {
                fail_expecting(ts, p + 1 + c, "Unexpected token"@, TokenModel::RightSquareBrackets)
            },
        },
        TokenModel::LeftParenthesis => match p_type_items(ts, p + 1, Seq::empty()) {
            Err(e) => Err(e),
            Ok((items, c)) => if items.len() == 0 {
                fail(ts, p + 1 + c, "Empty tuple is not allowed"@)
            } else if items.len() == 1 {
                Ok((items[0], c + 1))
            } else {
                Ok((TypeModel::Tuple(items), c + 1))
            },
        },
        TokenModel::TypeIdentifier(s) => Ok((named_type(s), 1)),
        _ => fail(ts, p, "Wrong token for type definition"@),
    }
}

/// A type: a type without `?`s, then any number of `?`.
pub open spec fn p_type(ts: Seq<ScannedModel>, p: int) -> Parsed<TypeModel<Seq<char>>>
    decreases left(ts, p), 1nat,
{
    match p_type_base(ts, p) {
        Err(e) => Err(e),
        Ok((t, c)) => {
            let r = p_type_suffix(ts, p + c, t);
            Ok((r.0, c + r.1))
        },
    }
}

/// The items of a tuple type from `p` on, after those in `acc`, up to and
/// with the closing parenthesis; a comma may follow each item.
pub open spec fn p_type_items(ts: Seq<ScannedModel>, p: int, acc: Seq<TypeModel<Seq<char>>>) -> Parsed<
    Seq<TypeModel<Seq<char>>>,
>
    decreases left(ts, p), 2nat,
{
    if tk(ts, p) == TokenModel::RightParenthesis {
        Ok((acc, 1))
    } else {
        match p_type(ts, p) {
            Err(e) => Err(e),
            Ok((t, c)) => if !took(ts, p, c) {
                // never taken: a type takes a token
                Ok((acc, 0))
            } else {
                let q = if tk(ts, p + c) == TokenModel::Comma {
                    p + c + 1
                } else {
                    p + c
                };
                match p_type_items(ts, q, acc.push(t)) {
                    Err(e) => Err(e),
                    Ok((items, c2)) => Ok((items, (q - p + c2) as nat)),
                }
            },
        }
    }
}

pub proof fn lemma_type_took(ts: Seq<ScannedModel>, p: int)
    requires
        p_type(ts, p) is Ok,
    ensures
        took(ts, p, (p_type(ts, p)->Ok_0).1),
{
}

/// The parser's state: the tokens and the position of the next one.
pub struct Parser<'a> {
    tokens: &'a Vec<ScannedToken>,
    position: usize,
}

impl<'a> Parser<'a> {
    /// The tokens as plain values.
    pub closed spec fn toks(&self) -> Seq<ScannedModel> {
        scanned_model(self.tokens@)
    }

    /// The position of the next token.
    pub closed spec fn pos(&self) -> int {
        self.position as int
    }

    /// The position is at most the number of tokens, and one more token
    /// fits a `usize`.
    pub open spec fn wf(&self) -> bool {
        self.pos() <= self.toks().len() < usize::MAX
    }

    /// The position of the next token.
    pub(crate) fn position(&self) -> (r: usize)
        ensures
            r == self.pos(),
    {
        self.position
    }

    /// The number of tokens.
    pub(crate) fn token_count(&self) -> (r: usize)
        ensures
            r == self.toks().len(),
    {
        self.tokens.len()
    }

    /// Moves to the token at `p`.
    pub(crate) fn set_position(&mut self, p: usize)
        requires
            p <= old(self).toks().len(),
        ensures
            final(self).toks() == old(self).toks(),
            final(self).pos() == p,
    {
        self.position = p;
    }

    /// The character positions of the first character of the token at
    /// `start` and of the last one of the token at `end` (0 outside the
    /// tokens).
    pub(crate) fn span(&self, start: usize, end: usize) -> (r: (usize, usize))
        ensures
            r.0 == at(self.toks(), start as int).first,
            r.1 == at(self.toks(), end as int).last,
    {
        let first = if start < self.tokens.len() {
            self.tokens[start].first
        } else {
            0
        };
        let last = if end < self.tokens.len() {
            self.tokens[end].last
        } else {
            0
        };
        (first, last)
    }

    /// A parser at the first of `tokens`.
    pub fn create(tokens: &'a Vec<ScannedToken>) -> (p: Parser<'a>)
        requires
            tokens@.len() < usize::MAX,
        ensures
            p.toks() == scanned_model(tokens@),
            p.pos() == 0,
            p.wf(),
    {
        Parser { tokens, position: 0 }
    }

    /// Whether the token at `p` is `t` (a token without content).
    pub(crate) fn tok_is(&self, p: usize, t: &Token) -> (r: bool)
        requires
            kind_of(t@) != 0,
        ensures
            r == (tk(self.toks(), p as int) == t@),
    {
        proof {
            lemma_kind_of(tk(self.toks(), p as int), t@);
        }
        if p < self.tokens.len() {
            unit_kind(&self.tokens[p].token) == unit_kind(t)
        } else {
            unit_kind(t) == 48
        }
    }

    /// The token at `p` (see `tk`).
    pub(crate) fn tok(&self, p: usize) -> (r: Token)
        ensures
            r@ == tk(self.toks(), p as int),
    {
        if p < self.tokens.len() {
            copy_token(&self.tokens[p].token)
        } else {
            Token::EOF
        }
    }

    /// The scanned token at `p` (see `at`).
    pub(crate) fn full_token(&self, p: usize) -> (r: ScannedToken)
        ensures
            r@ == at(self.toks(), p as int),
    {
        if p < self.tokens.len() {
            let t = &self.tokens[p];
            ScannedToken { token: copy_token(&t.token), first: t.first, last: t.last }
        } else {
            ScannedToken { token: Token::EOF, first: 0, last: 0 }
        }
    }

    /// The error `msg` at `p`.
    pub(crate) fn error_at<X>(&self, p: usize, msg: &'static str) -> (r: ParseResult<X>)
        ensures
            r matches Err(e) && Err::<(X, nat), PErr>(e@) == fail::<X>(self.toks(), p as int, msg@),
    {
        Err(ParseError { error_at: self.full_token(p), error_msg: msg, expected: None })
    }

    /// The error `msg` at `p`, where `t` was expected.
    pub(crate) fn error_expecting<X>(&self, p: usize, msg: &'static str, t: Token) -> (r: ParseResult<X>)
        ensures
            r matches Err(e) && Err::<(X, nat), PErr>(e@) == fail_expecting::<X>(self.toks(), p as int, msg@, t@),
    {
        Err(ParseError { error_at: self.full_token(p), error_msg: msg, expected: Some(t) })
    }

    /// Parses a type without its `?`s (see `p_type_base`).
    fn parse_type_base(&mut self) -> (r: ParseResult<ParsedType>)
        requires
            old(self).wf(),
        ensures
            final(self).toks() == old(self).toks(),
            final(self).wf(),
            match p_type_base(old(self).toks(), old(self).pos()) {
                Ok((t, c)) => r matches Ok(x) && x@ == t && final(self).pos() == old(self).pos() + c,
                Err(e) => r matches Err(x) && x@ == e,
            },
        decreases left(old(self).toks(), old(self).pos()), 0nat,
    {
        let ghost ts = self.toks();
        let start = self.position;
        let n = self.tokens.len();
        if self.tok_is(start, &Token::LeftSquareBrackets) {
            self.position = start + 1;
            let item = match self.parse_type() {
                Ok(t) => t,
                Err(e) => {
                    return Err(e);
                },
            };
            let p = self.position;
            if !self.tok_is(p, &Token::RightSquareBrackets) {
                return self.error_expecting(p, "Unexpected token", Token::RightSquareBrackets);
            }
            self.position = p + 1;
            Ok(Type::List(Box::new(item)))
        } else if self.tok_is(start, &Token::LeftParenthesis) {
            self.position = start + 1;
            let mut items: Vec<ParsedType> = Vec::new();
            let ghost first = start + 1;
            assert(models_of(items@) =~= Seq::<TypeModel<Seq<char>>>::empty());
            while !self.tok_is(self.position, &Token::RightParenthesis)
                invariant
                    self.toks() == ts,
                    ts == old(self).toks(),
                    start == old(self).pos(),
                    self.wf(),
                    n == ts.len(),
                    start < n,
                    tk(ts, start as int) == TokenModel::LeftParenthesis,
                    first == start + 1,
                    first <= self.position,
                    p_type_items(ts, first as int, Seq::empty()) == match p_type_items(
                        ts,
                        self.position as int,
                        models_of(items@),
                    ) {
                        Ok((all, c)) => Ok((all, (self.position - first + c) as nat)),
                        Err(e) => Err(e),
                    },
                decreases left(ts, self.position as int),
            {
                let p = self.position;
                assert(left(ts, p as int) < left(ts, start as int));
                let t = match self.parse_type() {
                    Ok(t) => t,
                    Err(e) => {
                        return Err(e);
                    },
                };
                proof {
                    lemma_type_took(ts, p as int);
                }
                let q = self.position;
                if self.tok_is(q, &Token::Comma) {
                    self.position = q + 1;
                }
                let ghost before = models_of(items@);
                items.push(t);
                assert(models_of(items@) =~= before.push(t@));
            }
            self.position = self.position + 1;
            if items.len() == 0 {
                self.error_at(self.position, "Empty tuple is not allowed")
            } else if items.len() == 1 {
                let mut items = items;
                let ghost one = items@;
                match items.pop() {
                    Some(t) => Ok(t),
                    None => self.error_at(self.position, "Empty tuple is not allowed"),
                }
            } else {
                proof {
                    lemma_model_tuple(items);
                }
                Ok(Type::Tuple(items))
            }
        } else {
            let t = self.tok(start);
            match t {
                Token::TypeIdentifier(s) => {
                    self.position = start + 1;
                    if same_text(s.as_str(), "Int") {
                        Ok(Type::Int)
                    } else if same_text(s.as_str(), "Float") {
                        Ok(Type::Float)
                    } else if same_text(s.as_str(), "Bool") {
                        Ok(Type::Bool)
                    } else if same_text(s.as_str(), "String") {
                        Ok(Type::String)
                    } else {
                        Ok(Type::Custom(s))
                    }
                },
                _ => self.error_at(start, "Wrong token for type definition"),
            }
        }
    }

    /// Parses a type (see `p_type`).
    pub fn parse_type(&mut self) -> (r: ParseResult<ParsedType>)
        requires
            old(self).wf(),
        ensures
            final(self).toks() == old(self).toks(),
            final(self).wf(),
            match p_type(old(self).toks(), old(self).pos()) {
                Ok((t, c)) => r matches Ok(x) && x@ == t && final(self).pos() == old(self).pos() + c,
                Err(e) => r matches Err(x) && x@ == e,
            },
        decreases left(old(self).toks(), old(self).pos()), 1nat,
    {
        let ghost ts = self.toks();
        let ghost start = self.position;
        let n = self.tokens.len();
        let base = match self.parse_type_base() {
            Ok(t) => t,
            Err(e) => {
                return Err(e);
            },
        };
        let ghost mid = self.position;
        let ghost b = base@;
        let mut result = base;
        while self.tok_is(self.position, &Token::Question)
            invariant
                self.toks() == ts,
                self.wf(),
                n == ts.len(),
                mid <= self.position,
                p_type_suffix(ts, mid as int, b) == ({
                    let r = p_type_suffix(ts, self.position as int, result@);
                    (r.0, (self.position - mid + r.1) as nat)
                }),
            decreases left(ts, self.position as int),
        {
            self.position = self.position + 1;
            result = Type::Maybe(Box::new(result));
        }
        Ok(result)
    }
}


} // verus!
