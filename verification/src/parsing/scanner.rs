//! Scanning of source text into tokens.
use vstd::prelude::*;

use crate::text::{chars_of, same_text, string_from_chars};
use vstd::utf8::encode_utf8;

verus! {

/// A token of the language. Float literals are held as their text.
#[derive(Debug, PartialEq, Clone)]
pub enum Token {
    LeftParenthesis, RightParenthesis, LeftCurlyBrackets, RightCurlyBrackets, LeftSquareBrackets, RightSquareBrackets, Comma, Dot, Semicolon, Plus, Minus, Star, Slash, Bang, BangEqual, Greater, GreaterEqual, Less, LessEqual, Equal, EqualEqual, Question, QuestionDot, QuestionElvis,
    Identifier(String),
    OwnIdentifier(String),
    TypeIdentifier(String),
    String(String),
    Float(String),
    Integer(i64),
    Active, Class, Spawn, If, Else, Elif, While, Foreach, Break, Continue, In, Fun, From, Import, True, False, Nil, And, Or, Not, Void, This, Return,
    EOF,
}

/// The mathematical value of a `Token`.
pub ghost enum TokenModel {
    LeftParenthesis, RightParenthesis, LeftCurlyBrackets, RightCurlyBrackets, LeftSquareBrackets, RightSquareBrackets, Comma, Dot, Semicolon, Plus, Minus, Star, Slash, Bang, BangEqual, Greater, GreaterEqual, Less, LessEqual, Equal, EqualEqual, Question, QuestionDot, QuestionElvis,
    Identifier(Seq<char>),
    OwnIdentifier(Seq<char>),
    TypeIdentifier(Seq<char>),
    String(Seq<char>),
    Float(Seq<char>),
    Integer(int),
    Active, Class, Spawn, If, Else, Elif, While, Foreach, Break, Continue, In, Fun, From, Import, True, False, Nil, And, Or, Not, Void, This, Return,
    EOF,
}

impl View for Token {
    type V = TokenModel;

    open spec fn view(&self) -> TokenModel {
        match self {
            Token::LeftParenthesis => TokenModel::LeftParenthesis,
            Token::RightParenthesis => TokenModel::RightParenthesis,
            Token::LeftCurlyBrackets => TokenModel::LeftCurlyBrackets,
            Token::RightCurlyBrackets => TokenModel::RightCurlyBrackets,
            Token::LeftSquareBrackets => TokenModel::LeftSquareBrackets,
            Token::RightSquareBrackets => TokenModel::RightSquareBrackets,
            Token::Comma => TokenModel::Comma,
            Token::Dot => TokenModel::Dot,
            Token::Semicolon => TokenModel::Semicolon,
            Token::Plus => TokenModel::Plus,
            Token::Minus => TokenModel::Minus,
            Token::Star => TokenModel::Star,
            Token::Slash => TokenModel::Slash,
            Token::Bang => TokenModel::Bang,
            Token::BangEqual => TokenModel::BangEqual,
            Token::Greater => TokenModel::Greater,
            Token::GreaterEqual => TokenModel::GreaterEqual,
            Token::Less => TokenModel::Less,
            Token::LessEqual => TokenModel::LessEqual,
            Token::Equal => TokenModel::Equal,
            Token::EqualEqual => TokenModel::EqualEqual,
            Token::Question => TokenModel::Question,
            Token::QuestionDot => TokenModel::QuestionDot,
            Token::QuestionElvis => TokenModel::QuestionElvis,
            Token::Active => TokenModel::Active,
            Token::Class => TokenModel::Class,
            Token::Spawn => TokenModel::Spawn,
            Token::If => TokenModel::If,
            Token::Else => TokenModel::Else,
            Token::Elif => TokenModel::Elif,
            Token::While => TokenModel::While,
            Token::Foreach => TokenModel::Foreach,
            Token::Break => TokenModel::Break,
            Token::Continue => TokenModel::Continue,
            Token::In => TokenModel::In,
            Token::Fun => TokenModel::Fun,
            Token::From => TokenModel::From,
            Token::Import => TokenModel::Import,
            Token::True => TokenModel::True,
            Token::False => TokenModel::False,
            Token::Nil => TokenModel::Nil,
            Token::And => TokenModel::And,
            Token::Or => TokenModel::Or,
            Token::Not => TokenModel::Not,
            Token::Void => TokenModel::Void,
            Token::This => TokenModel::This,
            Token::Return => TokenModel::Return,
            Token::EOF => TokenModel::EOF,
            Token::Identifier(s) => TokenModel::Identifier(s@),
            Token::OwnIdentifier(s) => TokenModel::OwnIdentifier(s@),
            Token::TypeIdentifier(s) => TokenModel::TypeIdentifier(s@),
            Token::String(s) => TokenModel::String(s@),
            Token::Float(s) => TokenModel::Float(s@),
            Token::Integer(v) => TokenModel::Integer(*v as int),
        }
    }
}

/// The keyword spelled `s`, if it is one.
pub open spec fn keyword(s: Seq<char>) -> Option<TokenModel> {
    if s == "active"@ {
        Some(TokenModel::Active)
    } else if s == "class"@ {
        Some(TokenModel::Class)
    } else if s == "spawn"@ {
        Some(TokenModel::Spawn)
    } else if s == "if"@ {
        Some(TokenModel::If)
    } else if s == "else"@ {
        Some(TokenModel::Else)
    } else if s == "elif"@ {
        Some(TokenModel::Elif)
    } else if s == "while"@ {
        Some(TokenModel::While)
    } else if s == "foreach"@ {
        Some(TokenModel::Foreach)
    } else if s == "break"@ {
        Some(TokenModel::Break)
    } else if s == "continue"@ {
        Some(TokenModel::Continue)
    } else if s == "in"@ {
        Some(TokenModel::In)
    } else if s == "fun"@ {
        Some(TokenModel::Fun)
    } else if s == "from"@ {
        Some(TokenModel::From)
    } else if s == "import"@ {
        Some(TokenModel::Import)
    } else if s == "true"@ {
        Some(TokenModel::True)
    } else if s == "false"@ {
        Some(TokenModel::False)
    } else if s == "nil"@ {
        Some(TokenModel::Nil)
    } else if s == "and"@ {
        Some(TokenModel::And)
    } else if s == "or"@ {
        Some(TokenModel::Or)
    } else if s == "not"@ {
        Some(TokenModel::Not)
    } else if s == "void"@ {
        Some(TokenModel::Void)
    } else if s == "this"@ {
        Some(TokenModel::This)
    } else if s == "return"@ {
        Some(TokenModel::Return)
    } else {
        None
    }
}

/// The keyword spelled `s`, if it is one.
fn keyword_token(s: &str) -> (r: Option<Token>)
    ensures
        match keyword(s@) {
            Some(k) => r matches Some(t) && t@ == k,
            None => r is None,
        },
{
    if same_text(s, "active") {
        Some(Token::Active)
    } else if same_text(s, "class") {
        Some(Token::Class)
    } else if same_text(s, "spawn") {
        Some(Token::Spawn)
    } else if same_text(s, "if") {
        Some(Token::If)
    } else if same_text(s, "else") {
        Some(Token::Else)
    } else if same_text(s, "elif") {
        Some(Token::Elif)
    } else if same_text(s, "while") {
        Some(Token::While)
    } else if same_text(s, "foreach") {
        Some(Token::Foreach)
    } else if same_text(s, "break") {
        Some(Token::Break)
    } else if same_text(s, "continue") {
        Some(Token::Continue)
    } else if same_text(s, "in") {
        Some(Token::In)
    } else if same_text(s, "fun") {
        Some(Token::Fun)
    } else if same_text(s, "from") {
        Some(Token::From)
    } else if same_text(s, "import") {
        Some(Token::Import)
    } else if same_text(s, "true") {
        Some(Token::True)
    } else if same_text(s, "false") {
        Some(Token::False)
    } else if same_text(s, "nil") {
        Some(Token::Nil)
    } else if same_text(s, "and") {
        Some(Token::And)
    } else if same_text(s, "or") {
        Some(Token::Or)
    } else if same_text(s, "not") {
        Some(Token::Not)
    } else if same_text(s, "void") {
        Some(Token::Void)
    } else if same_text(s, "this") {
        Some(Token::This)
    } else if same_text(s, "return") {
        Some(Token::Return)
    } else {
        None
    }
}

/// A token with the positions (in characters) of its first and last
/// character.
#[derive(Debug, Clone, PartialEq)]
pub struct ScannedToken {
    pub token: Token,
    pub first: usize,
    pub last: usize,
}

/// A scanning error: its message and the position it points at.
pub type ScanningError = (&'static str, usize);

/// A scanned token as plain values.
pub ghost struct ScannedModel {
    pub token: TokenModel,
    pub first: int,
    pub last: int,
}

impl View for ScannedToken {
    type V = ScannedModel;

    open spec fn view(&self) -> ScannedModel {
        ScannedModel { token: self.token@, first: self.first as int, last: self.last as int }
    }
}

/// Scanned tokens as plain values.
pub open spec fn scanned_model(v: Seq<ScannedToken>) -> Seq<ScannedModel> {
    v.map_values(|t: ScannedToken| t@)
}

/// `c` is an ASCII letter.
pub open spec fn ascii_letter(c: char) -> bool {
    ('a' <= c && c <= 'z') || ('A' <= c && c <= 'Z')
}

/// `c` is an ASCII digit.
pub open spec fn ascii_digit(c: char) -> bool {
    '0' <= c && c <= '9'
}

/// Whether a character beyond ASCII is alphabetic, as
/// `char::is_alphabetic` says (the Unicode Alphabetic property).
pub uninterp spec fn alphabetic_beyond_ascii(c: char) -> bool;

/// Whether a character beyond ASCII is alphanumeric, as
/// `char::is_alphanumeric` says.
pub uninterp spec fn alphanumeric_beyond_ascii(c: char) -> bool;

/// Whether a character beyond ASCII is upper case, as `char::is_uppercase`
/// says (the Unicode Uppercase property).
pub uninterp spec fn uppercase_beyond_ascii(c: char) -> bool;

/// Whether `c` is alphabetic: among ASCII characters, the letters.
pub open spec fn alphabetic(c: char) -> bool {
    if (c as u32) < 128 {
        ascii_letter(c)
    } else {
        alphabetic_beyond_ascii(c)
    }
}

/// Whether `c` is alphanumeric: among ASCII characters, the letters and
/// digits.
pub open spec fn alphanumeric(c: char) -> bool {
    if (c as u32) < 128 {
        ascii_letter(c) || ascii_digit(c)
    } else {
        alphanumeric_beyond_ascii(c)
    }
}

/// Whether `c` has the Unicode White_Space property: tab, line feed,
/// vertical tab, form feed, carriage return, space, next line, no-break
/// space, the Ogham space mark, the spaces from en quad to hair space, the
/// line and paragraph separators, the narrow no-break space, the medium
/// mathematical space and the ideographic space.
pub open spec fn whitespace(c: char) -> bool {
    let v = c as u32;
    ||| 0x09 <= v <= 0x0D
    ||| v == 0x20
    ||| v == 0x85
    ||| v == 0xA0
    ||| v == 0x1680
    ||| 0x2000 <= v <= 0x200A
    ||| v == 0x2028
    ||| v == 0x2029
    ||| v == 0x202F
    ||| v == 0x205F
    ||| v == 0x3000
}

/// Whether `c` is upper case: among ASCII characters, `A` to `Z`.
pub open spec fn uppercase(c: char) -> bool {
    if (c as u32) < 128 {
        'A' <= c && c <= 'Z'
    } else {
        uppercase_beyond_ascii(c)
    }
}

/// `char::is_alphabetic`: whether `c` has the Unicode Alphabetic property;
/// among ASCII characters that is the letters. Beyond ASCII the property is
/// named, not spelled out here.
#[verifier::external_body]
fn is_alphabetic(c: char) -> (r: bool)
    ensures
        r == alphabetic(c),
        (c as u32) >= 128 ==> r == alphabetic_beyond_ascii(c),
{
    c.is_alphabetic()
}

/// `char::is_alphanumeric`: whether `c` is alphabetic or numeric in
/// Unicode's sense; among ASCII characters that is the letters and digits.
/// Beyond ASCII it is named, not spelled out here.
#[verifier::external_body]
fn is_alphanumeric(c: char) -> (r: bool)
    ensures
        r == alphanumeric(c),
        (c as u32) >= 128 ==> r == alphanumeric_beyond_ascii(c),
{
    c.is_alphanumeric()
}

/// `char::is_whitespace`: whether `c` has the Unicode White_Space property
/// (the set spelled out in `whitespace`).
#[verifier::external_body]
fn is_whitespace(c: char) -> (r: bool)
    ensures
        r == whitespace(c),
{
    c.is_whitespace()
}

/// `char::is_uppercase`: whether `c` has the Unicode Uppercase property;
/// among ASCII characters that is `A` to `Z`. Beyond ASCII it is named, not
/// spelled out here.
#[verifier::external_body]
fn is_uppercase(c: char) -> (r: bool)
    ensures
        r == uppercase(c),
        (c as u32) >= 128 ==> r == uppercase_beyond_ascii(c),
{
    c.is_uppercase()
}

/// The character at `i`, or `'\0'` past the end.
pub open spec fn char_at(cs: Seq<char>, i: int) -> char {
    if 0 <= i < cs.len() {
        cs[i]
    } else {
        '\0'
    }
}

/// A decimal digit.
pub open spec fn is_digit(c: char) -> bool {
    '0' <= c <= '9'
}

/// The end of the identifier characters (alphanumeric or `_`) from `i`.
pub open spec fn ident_end(cs: Seq<char>, i: int) -> int
    decreases cs.len() - i,
{
    if 0 <= i < cs.len() && (alphanumeric(cs[i]) || cs[i] == '_') {
        ident_end(cs, i + 1)
    } else {
        i
    }
}

/// The end of the decimal digits from `i`.
pub open spec fn digits_end(cs: Seq<char>, i: int) -> int
    decreases cs.len() - i,
{
    if 0 <= i < cs.len() && is_digit(cs[i]) {
        digits_end(cs, i + 1)
    } else {
        i
    }
}

/// The first line break at or after `i`, or the end.
pub open spec fn line_end(cs: Seq<char>, i: int) -> int
    decreases cs.len() - i,
{
    if 0 <= i < cs.len() && cs[i] != '\n' {
        line_end(cs, i + 1)
    } else {
        i
    }
}

/// The first `*/` at or after `i`, or the end.
pub open spec fn block_end(cs: Seq<char>, i: int) -> int
    decreases cs.len() - i,
{
    if 0 <= i < cs.len() && !(cs[i] == '*' && char_at(cs, i + 1) == '/') {
        block_end(cs, i + 1)
    } else {
        i
    }
}

/// Where a string literal that began before `k` ends.
pub ghost enum StringEnd {
    /// The closing quote stands at this position.
    Closed(int),
    /// A line break follows a character of the literal.
    Newline,
    /// The text ends before the closing quote.
    Unterminated,
}

pub open spec fn string_end(cs: Seq<char>, quote: char, k: int) -> StringEnd
    decreases cs.len() - k,
{
    if k < 0 || k >= cs.len() {
        StringEnd::Unterminated
    } else if cs[k] == quote {
        StringEnd::Closed(k)
    } else if char_at(cs, k + 1) == '\n' {
        StringEnd::Newline
    } else {
        string_end(cs, quote, k + 1)
    }
}

/// The value of a string of decimal digits.
pub open spec fn decimal_value(s: Seq<char>) -> int
    decreases s.len(),
{
    if s.len() == 0 {
        0
    } else {
        decimal_value(s.drop_last()) * 10 + (s.last() as int - '0' as int)
    }
}

/// The token an identifier spells: a type name when it starts upper case,
/// a keyword, or a plain identifier; none for no characters at all.
pub open spec fn identifier_token(s: Seq<char>) -> Option<TokenModel> {
    if s.len() == 0 {
        None
    } else if uppercase(s[0]) {
        Some(TokenModel::TypeIdentifier(s))
    } else {
        match keyword(s) {
            Some(k) => Some(k),
            None => Some(TokenModel::Identifier(s)),
        }
    }
}

/// What the scanner does at position `pos`.
pub ghost enum Lexeme {
    /// A token from `first` to `last`; scanning goes on at `next`.
    Emit(TokenModel, int, int, int),
    /// Nothing to emit (white space, comments); scanning goes on here.
    Skip(int),
    /// An error with its message and position.
    Fail(Seq<char>, int),
    /// A state the scanner does not survive: an integer literal beyond
    /// `i64`, or an identifier without characters.
    Panic,
}

/// One character token at `pos`.
pub open spec fn single(t: TokenModel, pos: int) -> Lexeme {
    Lexeme::Emit(t, pos, pos, pos + 1)
}

/// A token of one or two characters: `two` when `second` follows.
pub open spec fn one_or_two(cs: Seq<char>, pos: int, second: char, two: TokenModel, one: TokenModel) -> Lexeme {
    if char_at(cs, pos + 1) == second {
        Lexeme::Emit(two, pos + 1, pos + 1, pos + 2)
    } else {
        single(one, pos)
    }
}

/// The step of the scanner at `pos`.
pub open spec fn step(cs: Seq<char>, pos: int) -> Lexeme {
    let c = cs[pos];
    if c == '(' {
        single(TokenModel::LeftParenthesis, pos)
    } else if c == ')' {
        single(TokenModel::RightParenthesis, pos)
    } else if c == '[' {
        single(TokenModel::LeftSquareBrackets, pos)
    } else if c == ']' {
        single(TokenModel::RightSquareBrackets, pos)
    } else if c == '{' {
        single(TokenModel::LeftCurlyBrackets, pos)
    } else if c == '}' {
        single(TokenModel::RightCurlyBrackets, pos)
    } else if c == ',' {
        single(TokenModel::Comma, pos)
    } else if c == '.' {
        single(TokenModel::Dot, pos)
    } else if c == ';' {
        single(TokenModel::Semicolon, pos)
    } else if c == '+' {
        single(TokenModel::Plus, pos)
    } else if c == '-' {
        single(TokenModel::Minus, pos)
    } else if c == '*' {
        single(TokenModel::Star, pos)
    } else if c == '/' {
        if char_at(cs, pos + 1) == '/' {
            let k = line_end(cs, pos + 2);
            Lexeme::Skip(if k < cs.len() { k + 1 } else { cs.len() as int })
        } else if char_at(cs, pos + 1) == '*' {
            let k = block_end(cs, pos + 2);
            Lexeme::Skip(if k < cs.len() { k + 2 } else { cs.len() as int })
        } else {
            single(TokenModel::Slash, pos)
        }
    } else if c == '?' {
        let n = char_at(cs, pos + 1);
        if n == '?' {
            Lexeme::Fail("Double-question mark has no sense (nillable is either ON or OFF)"@, pos)
        } else if n == ':' {
            Lexeme::Emit(TokenModel::QuestionElvis, pos + 1, pos + 1, pos + 2)
        } else if n == '.' {
            Lexeme::Emit(TokenModel::QuestionDot, pos + 1, pos + 1, pos + 2)
        } else if !(whitespace(n) || n == ',' || n == ']' || n == ')' || n == '\0') {
            Lexeme::Fail("Symbol is not allowed right after questionmark"@, pos)
        } else {
            single(TokenModel::Question, pos)
        }
    } else if c == '@' {
        if !alphabetic(char_at(cs, pos + 1)) {
            Lexeme::Fail("Identifier required after @"@, pos + 1)
        } else {
            let e = ident_end(cs, pos + 1);
            match identifier_token(cs.subrange(pos + 1, e)) {
                None => Lexeme::Panic,
                Some(TokenModel::Identifier(s)) => Lexeme::Emit(TokenModel::OwnIdentifier(s), pos, e - 1, e),
                Some(_) => Lexeme::Fail("Identifier required after @"@, e),
            }
        }
    } else if c == '=' {
        one_or_two(cs, pos, '=', TokenModel::EqualEqual, TokenModel::Equal)
    } else if c == '<' {
        one_or_two(cs, pos, '=', TokenModel::LessEqual, TokenModel::Less)
    } else if c == '>' {
        one_or_two(cs, pos, '=', TokenModel::GreaterEqual, TokenModel::Greater)
    } else if c == '!' {
        one_or_two(cs, pos, '=', TokenModel::BangEqual, TokenModel::Bang)
    } else if c == '"' || c == '\'' {
        match string_end(cs, c, pos + 1) {
            StringEnd::Closed(k) => Lexeme::Emit(TokenModel::String(cs.subrange(pos + 1, k)), pos, k, k + 1),
            StringEnd::Newline => Lexeme::Fail("String must be terminated at the same newline!"@, pos),
            StringEnd::Unterminated => Lexeme::Fail("String is not terminated!"@, pos),
        }
    } else if is_digit(c) {
        let p = digits_end(cs, pos + 1);
        if char_at(cs, p) == '.' && is_digit(char_at(cs, p + 1)) {
            let q = digits_end(cs, p + 2);
            Lexeme::Emit(TokenModel::Float(cs.subrange(pos, q)), pos, q - 1, q)
        } else {
            let v = decimal_value(cs.subrange(pos, p));
            if v <= i64::MAX {
                Lexeme::Emit(TokenModel::Integer(v), pos, p - 1, p)
            } else {
                Lexeme::Panic
            }
        }
    } else if alphabetic(c) {
        let e = ident_end(cs, pos + 1);
        match identifier_token(cs.subrange(pos, e)) {
            Some(t) => Lexeme::Emit(t, pos, e - 1, e),
            None => Lexeme::Panic,
        }
    } else if whitespace(c) {
        Lexeme::Skip(pos + 1)
    } else {
        Lexeme::Fail("Unknown symbol occured"@, pos)
    }
}

/// How scanning from a position ends.
pub ghost enum ScanEnd {
    Done,
    Failed(Seq<char>, int),
    Panicked,
}

/// The tokens scanned from `pos` on, and how scanning ends.
pub open spec fn scan_from(cs: Seq<char>, pos: int) -> (Seq<ScannedModel>, ScanEnd)
    decreases cs.len() - pos,
{
    if pos < 0 || pos >= cs.len() {
        (Seq::empty(), ScanEnd::Done)
    } else {
        match step(cs, pos) {
            Lexeme::Skip(n) => if pos < n <= cs.len() {
                scan_from(cs, n)
            } else {
                (Seq::empty(), ScanEnd::Done)
            },
            Lexeme::Emit(t, first, last, n) => if pos < n <= cs.len() {
                let rest = scan_from(cs, n);
                (seq![ScannedModel { token: t, first, last }] + rest.0, rest.1)
            } else {
                (Seq::empty(), ScanEnd::Done)
            },
            Lexeme::Fail(m, p) => (Seq::empty(), ScanEnd::Failed(m, p)),
            Lexeme::Panic => (Seq::empty(), ScanEnd::Panicked),
        }
    }
}

/// What scanning the text `cs` of `byte_len` bytes gives: the tokens up to
/// the end, followed by `EOF` at the last byte, or the tokens before an
/// error with the error; none where the scanner does not survive (no text
/// at all, or a state of `Lexeme::Panic`).
pub open spec fn scan_model(cs: Seq<char>, byte_len: int) -> Option<(Seq<ScannedModel>, Result<(), (Seq<char>, int)>)> {
    if cs.len() == 0 {
        None
    } else {
        let (ts, end) = scan_from(cs, 0);
        match end {
            ScanEnd::Done => Some(
                (ts.push(ScannedModel { token: TokenModel::EOF, first: byte_len - 1, last: byte_len - 1 }), Ok(())),
            ),
            ScanEnd::Failed(m, p) => Some((ts, Err((m, p)))),
            ScanEnd::Panicked => None,
        }
    }
}

/// What one step of the scanner did.
enum StepResult {
    Next,
    Failed(&'static str, usize),
    Stuck,
}

/// The text being scanned, the tokens so far and the current position.
struct Scanner {
    chars: Vec<char>,
    tokens: Vec<ScannedToken>,
    position: usize,
}

impl Scanner {
    spec fn wf(&self) -> bool {
        &&& self.position <= self.chars@.len()
        &&& self.chars@.len() + 3 <= usize::MAX
    }

    fn create(chars: Vec<char>) -> (s: Scanner)
        requires
            chars@.len() + 3 <= usize::MAX,
        ensures
            s.wf(),
            s.chars@ == chars@,
            s.tokens@.len() == 0,
            s.position == 0,
    {
        Scanner { chars, tokens: Vec::new(), position: 0 }
    }

    /// The current character, moving past it; `'\0'` at the end.
    fn consume_char(&mut self) -> (c: char)
        requires
            old(self).wf(),
        ensures
            final(self).wf(),
            final(self).chars@ == old(self).chars@,
            final(self).tokens@ == old(self).tokens@,
            final(self).position == if old(self).position < old(self).chars@.len() {
                old(self).position + 1
            } else {
                old(self).position as int
            },
            c == char_at(old(self).chars@, old(self).position as int),
    {
        if !self.is_finished() {
            self.position = self.position + 1;
            self.chars[self.position - 1]
        } else {
            '\0'
        }
    }

    /// The character `ahead` places past the current one; `'\0'` past the end.
    fn char_ahead(&self, ahead: usize) -> (c: char)
        requires
            self.wf(),
            ahead <= 2,
        ensures
            c == char_at(self.chars@, self.position + ahead),
    {
        let i = self.position + ahead;
        if i < self.chars.len() {
            self.chars[i]
        } else {
            '\0'
        }
    }

    fn check_ahead(&self, ahead: usize, expected: char) -> (r: bool)
        requires
            self.wf(),
            ahead <= 2,
        ensures
            r == (char_at(self.chars@, self.position + ahead) == expected),
    {
        self.char_ahead(ahead) == expected
    }

    /// Whether the current character is `expected`; if so, moves past it.
    fn check_next(&mut self, expected: char) -> (r: bool)
        requires
            old(self).wf(),
        ensures
            final(self).wf(),
            final(self).chars@ == old(self).chars@,
            final(self).tokens@ == old(self).tokens@,
            r == (char_at(old(self).chars@, old(self).position as int) == expected),
            final(self).position == if r && old(self).position < old(self).chars@.len() {
                old(self).position + 1
            } else {
                old(self).position as int
            },
    {
        let is_equal_next = self.check_ahead(0, expected);
        if is_equal_next {
            self.consume_char();
        }
        is_equal_next
    }

    fn is_finished(&self) -> (r: bool)
        ensures
            r == (self.position == self.chars@.len()),
    {
        self.position == self.chars.len()
    }

    /// Adds `token` standing on the character just passed.
    fn add_token(&mut self, token: Token)
        requires
            old(self).wf(),
            old(self).position >= 1,
        ensures
            final(self).wf(),
            final(self).chars@ == old(self).chars@,
            final(self).position == old(self).position,
            scanned_model(final(self).tokens@) == scanned_model(old(self).tokens@).push(
                (ScannedModel { token: token@, first: old(self).position - 1, last: old(self).position - 1 }),
            ),
    {
        let at = self.position - 1;
        self.add_token_with_position(token, at);
    }

    /// Adds `token` from `start` to the character just passed.
    fn add_token_with_position(&mut self, token: Token, start: usize)
        requires
            old(self).wf(),
            old(self).position >= 1,
        ensures
            final(self).wf(),
            final(self).chars@ == old(self).chars@,
            final(self).position == old(self).position,
            scanned_model(final(self).tokens@) == scanned_model(old(self).tokens@).push(
                (ScannedModel { token: token@, first: start as int, last: old(self).position - 1 }),
            ),
    {
        let ghost before = self.tokens@;
        let last = self.position - 1;
        self.tokens.push(ScannedToken { token, first: start, last });
        assert(scanned_model(self.tokens@) =~= scanned_model(before).push(self.tokens@.last()@));
    }

    /// The text from `from` to the current position.
    fn text_from(&self, from: usize) -> (s: String)
        requires
            self.wf(),
            from <= self.position,
        ensures
            s@ == self.chars@.subrange(from as int, self.position as int),
    {
        let part = vstd::slice::slice_subrange(self.chars.as_slice(), from, self.position);
        string_from_chars(part)
    }
}

/// A decimal digit.
fn is_digit_char(c: char) -> (r: bool)
    ensures
        r == is_digit(c),
{
    '0' <= c && c <= '9'
}

/// The token an identifier spells (see `identifier_token`).
fn identifier_to_token(s: String) -> (r: Option<Token>)
    ensures
        match identifier_token(s@) {
            Some(t) => r matches Some(x) && x@ == t,
            None => r is None,
        },
{
    let cs = chars_of(s.as_str());
    if cs.len() == 0 {
        return None;
    }
    if is_uppercase(cs[0]) {
        return Some(Token::TypeIdentifier(s));
    }
    match keyword_token(s.as_str()) {
        Some(k) => Some(k),
        None => Some(Token::Identifier(s)),
    }
}

proof fn lemma_decimal_grows(s: Seq<char>, i: int, j: int)
    requires
        0 <= i <= j <= s.len(),
        forall|k: int| 0 <= k < s.len() ==> is_digit(#[trigger] s[k]),
    ensures
        0 <= decimal_value(s.take(i)) <= decimal_value(s.take(j)),
    decreases j,
{
    if j > 0 {
        assert(s.take(j).drop_last() =~= s.take(j - 1));
        if i < j {
            lemma_decimal_grows(s, i, j - 1);
        } else {
            lemma_decimal_grows(s, i - 1, j - 1);
        }
    }
}

/// The value of the decimal digits `digits`, or none beyond `i64::MAX`.
fn parse_decimal(digits: &[char]) -> (r: Option<i64>)
    requires
        forall|k: int| 0 <= k < digits@.len() ==> is_digit(#[trigger] digits@[k]),
    ensures
        match r {
            Some(v) => v == decimal_value(digits@),
            None => decimal_value(digits@) > i64::MAX,
        },
{
    let ghost s = digits@;
    let mut v: i64 = 0;
    let mut i: usize = 0;
    assert(s.take(0) =~= Seq::<char>::empty());
    while i < digits.len()
        invariant
            i <= s.len(),
            s == digits@,
            forall|k: int| 0 <= k < s.len() ==> is_digit(#[trigger] s[k]),
            v == decimal_value(s.take(i as int)),
            0 <= v,
        decreases s.len() - i,
    {
        let c = digits[i];
        let d: i64 = if c == '0' { 0 } else if c == '1' { 1 } else if c == '2' { 2 } else if c == '3' { 3 }
            else if c == '4' { 4 } else if c == '5' { 5 } else if c == '6' { 6 } else if c == '7' { 7 }
            else if c == '8' { 8 } else { 9 };
        assert(d == s[i as int] as int - '0' as int);
        assert(s.take(i + 1).drop_last() =~= s.take(i as int));
        if v > 922337203685477580 || (v == 922337203685477580 && d > 7) {
            proof {
                lemma_decimal_grows(s, i + 1, s.len() as int);
                assert(s.take(s.len() as int) =~= s);
            }
            return None;
        }
        v = v * 10 + d;
        i = i + 1;
    }
    assert(s.take(s.len() as int) =~= s);
    Some(v)
}

/// Moves past identifier characters and gives the token that the text from
/// `start` spells.
fn scan_identifier(scanner: &mut Scanner, start: usize) -> (r: Option<Token>)
    requires
        old(scanner).wf(),
        start <= old(scanner).position,
    ensures
        final(scanner).wf(),
        final(scanner).chars@ == old(scanner).chars@,
        final(scanner).tokens@ == old(scanner).tokens@,
        final(scanner).position == ident_end(old(scanner).chars@, old(scanner).position as int),
        final(scanner).position >= old(scanner).position,
        match identifier_token(old(scanner).chars@.subrange(start as int, final(scanner).position as int)) {
            Some(t) => r matches Some(x) && x@ == t,
            None => r is None,
        },
{
    let ghost cs = scanner.chars@;
    let ghost from = scanner.position as int;
    let ghost tokens = scanner.tokens@;
    loop
        invariant
            scanner.wf(),
            scanner.chars@ == cs,
            scanner.tokens@ == tokens,
            from <= scanner.position,
            ident_end(cs, from) == ident_end(cs, scanner.position as int),
        ensures
            scanner.wf(),
            scanner.chars@ == cs,
            scanner.tokens@ == tokens,
            from <= scanner.position,
            ident_end(cs, from) == scanner.position,
        decreases cs.len() - scanner.position,
    {
        if scanner.is_finished() {
            break;
        }
        let c = scanner.char_ahead(0);
        if is_alphanumeric(c) || c == '_' {
            scanner.consume_char();
        } else {
            break;
        }
    }
    let s = scanner.text_from(start);
    identifier_to_token(s)
}

/// Scans a string literal opened by `quote` at `start`.
fn scan_string(scanner: &mut Scanner, start: usize, quote: char) -> (r: StepResult)
    requires
        old(scanner).wf(),
        old(scanner).position == start + 1,
    ensures
        final(scanner).wf(),
        final(scanner).chars@ == old(scanner).chars@,
        final(scanner).position > start,
        match string_end(old(scanner).chars@, quote, start + 1) {
            StringEnd::Closed(k) => r is Next && final(scanner).position == k + 1 && scanned_model(final(scanner).tokens@)
                == scanned_model(old(scanner).tokens@).push(
                (ScannedModel {
                    token: TokenModel::String(old(scanner).chars@.subrange(start + 1, k)),
                    first: start as int,
                    last: k,
                }),
            ),
            StringEnd::Newline => r matches StepResult::Failed(m, p) && m@ == "String must be terminated at the same newline!"@
                && p == start && final(scanner).tokens@ == old(scanner).tokens@,
            StringEnd::Unterminated => r matches StepResult::Failed(m, p) && m@ == "String is not terminated!"@ && p == start
                && final(scanner).tokens@ == old(scanner).tokens@,
        },
{
    let ghost cs = scanner.chars@;
    while !(scanner.is_finished() || scanner.check_ahead(0, quote))
        invariant
            scanner.wf(),
            scanner.chars@ == cs,
            cs == old(scanner).chars@,
            scanner.tokens@ == old(scanner).tokens@,
            start + 1 <= scanner.position,
            string_end(cs, quote, start + 1) == string_end(cs, quote, scanner.position as int),
        decreases cs.len() - scanner.position,
    {
        scanner.consume_char();
        if scanner.char_ahead(0) == '\n' {
            return StepResult::Failed("String must be terminated at the same newline!", start);
        }
    }
    if scanner.is_finished() {
        StepResult::Failed("String is not terminated!", start)
    } else {
        let content = scanner.text_from(start + 1);
        scanner.consume_char();
        scanner.add_token_with_position(Token::String(content), start);
        StepResult::Next
    }
}

/// The relation between a step of the scanner and `step`.
spec fn step_done(l: Lexeme, r: StepResult, before: Seq<ScannedModel>, after: Seq<ScannedModel>, pos: int, next: int) -> bool {
    match l {
        Lexeme::Skip(n) => r is Next && next == n && after == before && pos < n,
        Lexeme::Emit(t, first, last, n) => r is Next && next == n && pos < n && after == before.push(
            ScannedModel { token: t, first, last },
        ),
        Lexeme::Fail(m, p) => r matches StepResult::Failed(e, x) && e@ == m && x == p && after == before,
        Lexeme::Panic => r is Stuck,
    }
}

/// One step of the scanner at its current position.
fn scan_step(scanner: &mut Scanner) -> (r: StepResult)
    requires
        old(scanner).wf(),
        old(scanner).position < old(scanner).chars@.len(),
    ensures
        final(scanner).wf(),
        final(scanner).chars@ == old(scanner).chars@,
        step_done(
            step(old(scanner).chars@, old(scanner).position as int),
            r,
            scanned_model(old(scanner).tokens@),
            scanned_model(final(scanner).tokens@),
            old(scanner).position as int,
            final(scanner).position as int,
        ),
{
    let ghost cs = scanner.chars@;
    let start = scanner.position;
    let c = scanner.consume_char();
    if c == '(' {
        scanner.add_token(Token::LeftParenthesis);
    } else if c == ')' {
        scanner.add_token(Token::RightParenthesis);
    } else if c == '[' {
        scanner.add_token(Token::LeftSquareBrackets);
    } else if c == ']' {
        scanner.add_token(Token::RightSquareBrackets);
    } else if c == '{' {
        scanner.add_token(Token::LeftCurlyBrackets);
    } else if c == '}' {
        scanner.add_token(Token::RightCurlyBrackets);
    } else if c == ',' {
        scanner.add_token(Token::Comma);
    } else if c == '.' {
        scanner.add_token(Token::Dot);
    } else if c == ';' {
        scanner.add_token(Token::Semicolon);
    } else if c == '+' {
        scanner.add_token(Token::Plus);
    } else if c == '-' {
        scanner.add_token(Token::Minus);
    } else if c == '*' {
        scanner.add_token(Token::Star);
    } else if c == '/' {
        if scanner.check_next('/') {
            while !scanner.is_finished() && !scanner.check_ahead(0, '\n')
                invariant
                    scanner.wf(),
                    scanner.chars@ == cs,
                    scanner.tokens@ == old(scanner).tokens@,
                    start + 2 <= scanner.position,
                    line_end(cs, start + 2) == line_end(cs, scanner.position as int),
                decreases cs.len() - scanner.position,
            {
                scanner.consume_char();
            }
            scanner.consume_char();
        } else if scanner.check_next('*') {
            while !scanner.is_finished() && !(scanner.check_ahead(0, '*') && scanner.check_ahead(1, '/'))
                invariant
                    scanner.wf(),
                    scanner.chars@ == cs,
                    scanner.tokens@ == old(scanner).tokens@,
                    start + 2 <= scanner.position,
                    block_end(cs, start + 2) == block_end(cs, scanner.position as int),
                decreases cs.len() - scanner.position,
            {
                scanner.consume_char();
            }
            scanner.consume_char();
            scanner.consume_char();
        } else {
            scanner.add_token(Token::Slash);
        }
    } else if c == '?' {
        let next_char = scanner.char_ahead(0);
        if next_char == '?' {
            return StepResult::Failed(
                "Double-question mark has no sense (nillable is either ON or OFF)",
                scanner.position - 1,
            );
        }
        if next_char == ':' {
            scanner.consume_char();
            scanner.add_token(Token::QuestionElvis);
            return StepResult::Next;
        }
        if next_char == '.' {
            scanner.consume_char();
            scanner.add_token(Token::QuestionDot);
            return StepResult::Next;
        }
        if !(is_whitespace(next_char) || next_char == ',' || next_char == ']' || next_char == ')' || next_char == '\0') {
            return StepResult::Failed("Symbol is not allowed right after questionmark", scanner.position - 1);
        }
        scanner.add_token(Token::Question);
    } else if c == '@' {
        if !is_alphabetic(scanner.char_ahead(0)) {
            return StepResult::Failed("Identifier required after @", scanner.position);
        }
        let token = scan_identifier(scanner, start + 1);
        match token {
            Some(Token::Identifier(s)) => {
                scanner.add_token_with_position(Token::OwnIdentifier(s), start);
            },
            Some(_) => {
                return StepResult::Failed("Identifier required after @", scanner.position);
            },
            None => {
                return StepResult::Stuck;
            },
        }
    } else if c == '=' {
        if scanner.check_next('=') {
            scanner.add_token(Token::EqualEqual);
        } else {
            scanner.add_token(Token::Equal);
        }
    } else if c == '<' {
        if scanner.check_next('=') {
            scanner.add_token(Token::LessEqual);
        } else {
            scanner.add_token(Token::Less);
        }
    } else if c == '>' {
        if scanner.check_next('=') {
            scanner.add_token(Token::GreaterEqual);
        } else {
            scanner.add_token(Token::Greater);
        }
    } else if c == '!' {
        if scanner.check_next('=') {
            scanner.add_token(Token::BangEqual);
        } else {
            scanner.add_token(Token::Bang);
        }
    } else if c == '"' || c == '\'' {
        return scan_string(scanner, start, c);
    } else if is_digit_char(c) {
        return scan_number(scanner, start);
    } else if is_alphabetic(c) {
        let token = scan_identifier(scanner, start);
        match token {
            Some(t) => {
                scanner.add_token_with_position(t, start);
            },
            None => {
                return StepResult::Stuck;
            },
        }
    } else if is_whitespace(c) {
    } else {
        return StepResult::Failed("Unknown symbol occured", scanner.position - 1);
    }
    StepResult::Next
}

/// Scans a number whose first digit stands at `start`: an integer, or a
/// float where a dot and a digit follow the first digits.
fn scan_number(scanner: &mut Scanner, start: usize) -> (r: StepResult)
    requires
        old(scanner).wf(),
        old(scanner).position == start + 1,
        is_digit(old(scanner).chars@[start as int]),
    ensures
        final(scanner).wf(),
        final(scanner).chars@ == old(scanner).chars@,
        step_done(
            step(old(scanner).chars@, start as int),
            r,
            scanned_model(old(scanner).tokens@),
            scanned_model(final(scanner).tokens@),
            start as int,
            final(scanner).position as int,
        ),
{
    let ghost cs = scanner.chars@;
    let mut is_float = false;
    while is_digit_char(scanner.char_ahead(0))
        invariant
            scanner.wf(),
            scanner.chars@ == cs,
            scanner.tokens@ == old(scanner).tokens@,
            start + 1 <= scanner.position,
            digits_end(cs, start + 1) == digits_end(cs, scanner.position as int),
            forall|k: int| start <= k < scanner.position ==> is_digit(#[trigger] cs[k]),
        decreases cs.len() - scanner.position,
    {
        scanner.consume_char();
    }
    let ghost p = scanner.position as int;
    if scanner.check_ahead(0, '.') && is_digit_char(scanner.char_ahead(1)) {
        is_float = true;
        scanner.consume_char();
        while is_digit_char(scanner.char_ahead(0))
            invariant
                scanner.wf(),
                scanner.chars@ == cs,
                scanner.tokens@ == old(scanner).tokens@,
                p + 1 <= scanner.position,
                digits_end(cs, p + 2) == digits_end(cs, scanner.position as int) || scanner.position == p + 1,
                scanner.position == p + 1 ==> is_digit(char_at(cs, p + 1)),
            decreases cs.len() - scanner.position,
        {
            scanner.consume_char();
        }
    }
    if is_float {
        let content = scanner.text_from(start);
        scanner.add_token_with_position(Token::Float(content), start);
        StepResult::Next
    } else {
        let part = vstd::slice::slice_subrange(scanner.chars.as_slice(), start, scanner.position);
        match parse_decimal(part) {
            Some(v) => {
                scanner.add_token_with_position(Token::Integer(v), start);
                StepResult::Next
            },
            None => StepResult::Stuck,
        }
    }
}

/// A scanning outcome as plain values.
pub open spec fn status_model(s: Result<(), ScanningError>) -> Result<(), (Seq<char>, int)> {
    match s {
        Ok(()) => Ok(()),
        Err((m, p)) => Err((m@, p as int)),
    }
}

proof fn lemma_utf8_nonempty(cs: Seq<char>)
    requires
        cs.len() > 0,
    ensures
        encode_utf8(cs).len() > 0,
{
    assert(encode_utf8(cs) == vstd::utf8::encode_scalar(cs[0] as u32) + encode_utf8(cs.drop_first()));
    assert(vstd::utf8::encode_scalar(cs[0] as u32).len() >= 1);
}

/// Scans all of `data`; none where the scanner would not survive.
fn scan_all(data: &str) -> (r: Option<(Vec<ScannedToken>, Result<(), ScanningError>)>)
    requires
        data@.len() + 3 <= usize::MAX,
    ensures
        match scan_model(data@, encode_utf8(data@).len() as int) {
            Some((ts, status)) => r matches Some((v, s)) && scanned_model(v@) == ts && status_model(s) == status,
            None => r is None,
        },
{
    let chars = chars_of(data);
    let ghost cs = chars@;
    if chars.len() == 0 {
        return None;
    }
    let mut scanner = Scanner::create(chars);
    assert(scanned_model(scanner.tokens@) =~= Seq::<ScannedModel>::empty());
    while !scanner.is_finished()
        invariant
            scanner.wf(),
            scanner.chars@ == cs,
            cs == data@,
            cs.len() > 0,
            scan_from(cs, 0) == (scanned_model(scanner.tokens@) + scan_from(cs, scanner.position as int).0, scan_from(
                cs,
                scanner.position as int,
            ).1),
        decreases cs.len() - scanner.position,
    {
        let ghost before = scanned_model(scanner.tokens@);
        let ghost pos = scanner.position as int;
        let r = scan_step(&mut scanner);
        match r {
            StepResult::Next => {
                proof {
                    let rest = scan_from(cs, scanner.position as int);
                    match step(cs, pos) {
                        Lexeme::Emit(t, first, last, n) => {
                            assert(scanned_model(scanner.tokens@) + rest.0 =~= before + (seq![ScannedModel { token: t, first, last }] + rest.0));
                        },
                        _ => {},
                    }
                }
            },
            StepResult::Failed(m, p) => {
                proof {
                    assert(before + Seq::<ScannedModel>::empty() =~= before);
                    assert(scan_from(cs, pos) == (Seq::<ScannedModel>::empty(), ScanEnd::Failed(m@, p as int)));
                    assert(scan_from(cs, 0) == (before, ScanEnd::Failed(m@, p as int)));
                }
                return Some((scanner.tokens, Err((m, p))));
            },
            StepResult::Stuck => {
                return None;
            },
        }
    }
    proof {
        lemma_utf8_nonempty(cs);
        assert(scanned_model(scanner.tokens@) + Seq::<ScannedModel>::empty() =~= scanned_model(scanner.tokens@));
    }
    let mut tokens = scanner.tokens;
    let end = data.as_bytes().len() - 1;
    let ghost before = tokens@;
    tokens.push(ScannedToken { token: Token::EOF, first: end, last: end });
    assert(scanned_model(tokens@) =~= scanned_model(before).push(tokens@.last()@));
    Some((tokens, Ok(())))
}

/// The tokens of `data` with their positions, and whether scanning went
/// through: on an error, the tokens before it and the error (see
/// `scan_model`).
pub fn scan_tokens(data: &str) -> (r: (Vec<ScannedToken>, Result<(), ScanningError>))
    requires
        data@.len() + 3 <= usize::MAX,
        scan_model(data@, encode_utf8(data@).len() as int) is Some,
    ensures
        scan_model(data@, encode_utf8(data@).len() as int) == Some((scanned_model(r.0@), status_model(r.1))),
{
    match scan_all(data) {
        Some(r) => r,
        None => (Vec::new(), Ok(())),
    }
}

/// `scan_tokens` where the scanner survives `data`; none where it would not
/// (no text at all, an integer literal beyond `i64`).
pub fn scan(data: &str) -> (r: Option<(Vec<ScannedToken>, Result<(), ScanningError>)>)
    ensures
        data@.len() + 3 > usize::MAX ==> r is None,
        data@.len() + 3 <= usize::MAX ==> match scan_model(data@, encode_utf8(data@).len() as int) {
            Some((ts, status)) => r matches Some((v, s)) && scanned_model(v@) == ts && status_model(s) == status,
            None => r is None,
        },
{
    let chars = chars_of(data);
    if chars.len() > usize::MAX - 3 {
        return None;
    }
    match scan_all(data) {
        Some(_) => Some(scan_tokens(data)),
        None => None,
    }
}

} // verus!

verus! {

proof fn lemma_ident_end(cs: Seq<char>, i: int)
    requires
        0 <= i <= cs.len(),
    ensures
        i <= ident_end(cs, i) <= cs.len(),
    decreases cs.len() - i,
{
    if i < cs.len() && (alphanumeric(cs[i]) || cs[i] == '_') {
        lemma_ident_end(cs, i + 1);
    }
}

proof fn lemma_digits_end(cs: Seq<char>, i: int)
    requires
        0 <= i <= cs.len(),
    ensures
        i <= digits_end(cs, i) <= cs.len(),
    decreases cs.len() - i,
{
    if i < cs.len() && is_digit(cs[i]) {
        lemma_digits_end(cs, i + 1);
    }
}

proof fn lemma_line_end(cs: Seq<char>, i: int)
    requires
        0 <= i <= cs.len(),
    ensures
        i <= line_end(cs, i) <= cs.len(),
    decreases cs.len() - i,
{
    if i < cs.len() && cs[i] != '\n' {
        lemma_line_end(cs, i + 1);
    }
}

proof fn lemma_block_end(cs: Seq<char>, i: int)
    requires
        0 <= i <= cs.len(),
    ensures
        i <= block_end(cs, i) <= cs.len(),
        block_end(cs, i) < cs.len() ==> block_end(cs, i) + 1 < cs.len(),
    decreases cs.len() - i,
{
    if i < cs.len() && !(cs[i] == '*' && char_at(cs, i + 1) == '/') {
        lemma_block_end(cs, i + 1);
    }
}

proof fn lemma_string_end(cs: Seq<char>, quote: char, k: int)
    requires
        0 <= k,
    ensures
        string_end(cs, quote, k) matches StringEnd::Closed(j) ==> k <= j < cs.len(),
    decreases cs.len() - k,
{
    if 0 <= k < cs.len() && cs[k] != quote && char_at(cs, k + 1) != '\n' {
        lemma_string_end(cs, quote, k + 1);
    }
}

/// A token that a step emits lies at or after the step's position, ends
/// just before the next position, and the text goes on to there; a skip
/// moves forward within the text.
proof fn lemma_step_bounds(cs: Seq<char>, pos: int)
    requires
        0 <= pos < cs.len(),
    ensures
        step(cs, pos) matches Lexeme::Emit(t, first, last, next) ==> pos <= first <= last && last + 1 == next
            && next <= cs.len(),
        step(cs, pos) matches Lexeme::Skip(next) ==> pos < next <= cs.len(),
{
    let c = cs[pos];
    if pos + 1 <= cs.len() {
        lemma_ident_end(cs, pos + 1);
        lemma_digits_end(cs, pos + 1);
    }
    if c == '/' && char_at(cs, pos + 1) == '/' {
        lemma_line_end(cs, pos + 2);
    }
    if c == '/' && char_at(cs, pos + 1) == '*' {
        lemma_block_end(cs, pos + 2);
    }
    if c == '"' || c == '\'' {
        lemma_string_end(cs, c, pos + 1);
    }
    if is_digit(c) {
        let p = digits_end(cs, pos + 1);
        if char_at(cs, p) == '.' && is_digit(char_at(cs, p + 1)) {
            lemma_digits_end(cs, p + 2);
        }
    }
    if c == '@' && alphabetic(char_at(cs, pos + 1)) {
        let e = ident_end(cs, pos + 1);
        if e == pos + 1 {
            assert(cs.subrange(pos + 1, e).len() == 0);
        }
    }
}

proof fn lemma_scan_from_in_order(cs: Seq<char>, pos: int)
    requires
        0 <= pos,
    ensures
        forall|i: int| 0 <= i < scan_from(cs, pos).0.len() ==> {
            let t = #[trigger] scan_from(cs, pos).0[i];
            pos <= t.first <= t.last < cs.len()
        },
        forall|i: int, j: int|
            0 <= i < j < scan_from(cs, pos).0.len() ==> #[trigger] scan_from(cs, pos).0[i].last
                < #[trigger] scan_from(cs, pos).0[j].first,
    decreases cs.len() - pos,
{
    if pos < cs.len() {
        lemma_step_bounds(cs, pos);
        match step(cs, pos) {
            Lexeme::Skip(n) => {
                lemma_scan_from_in_order(cs, n);
            },
            Lexeme::Emit(t, first, last, n) => {
                lemma_scan_from_in_order(cs, n);
                let rest = scan_from(cs, n).0;
                let all = scan_from(cs, pos).0;
                assert(all == seq![ScannedModel { token: t, first, last }] + rest);
                assert forall|i: int| 0 <= i < all.len() implies {
                    let u = #[trigger] all[i];
                    pos <= u.first <= u.last < cs.len()
                } by {
                    if i > 0 {
                        assert(all[i] == rest[i - 1]);
                    }
                }
                assert forall|i: int, j: int| 0 <= i < j < all.len() implies #[trigger] all[i].last < #[trigger] all[j].first by {
                    assert(all[j] == rest[j - 1]);
                    if i > 0 {
                        assert(all[i] == rest[i - 1]);
                    }
                }
            },
            _ => {},
        }
    }
}

/// Scanned tokens lie within the text, each from its first to its last
/// character, and come in the order of the text without overlapping.
pub proof fn law_tokens_in_order(cs: Seq<char>)
    ensures
        forall|i: int| 0 <= i < scan_from(cs, 0).0.len() ==> {
            let t = #[trigger] scan_from(cs, 0).0[i];
            0 <= t.first <= t.last < cs.len()
        },
        forall|i: int, j: int|
            0 <= i < j < scan_from(cs, 0).0.len() ==> #[trigger] scan_from(cs, 0).0[i].last
                < #[trigger] scan_from(cs, 0).0[j].first,
{
    lemma_scan_from_in_order(cs, 0);
}

} // verus!
