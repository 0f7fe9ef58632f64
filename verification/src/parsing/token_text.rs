//! The Debug text of a token, as error messages show it.
use vstd::prelude::*;

use crate::ast::{push_escaped, quoted};
use crate::parsing::scanner::{keyword, Token, TokenModel};
use crate::text::{chars_of, decimal_i64, decimal_of_int, extend_chars, string_from_chars};

verus! {

/// The Debug text of a token: its variant's name, with a name or a string
/// quoted and escaped, a number in decimal and a float as its source text,
/// in brackets.
pub open spec fn token_text(t: TokenModel) -> Seq<char> {
    match t {
        TokenModel::LeftParenthesis => "LeftParenthesis"@,
        TokenModel::RightParenthesis => "RightParenthesis"@,
        TokenModel::LeftCurlyBrackets => "LeftCurlyBrackets"@,
        TokenModel::RightCurlyBrackets => "RightCurlyBrackets"@,
        TokenModel::LeftSquareBrackets => "LeftSquareBrackets"@,
        TokenModel::RightSquareBrackets => "RightSquareBrackets"@,
        TokenModel::Comma => "Comma"@,
        TokenModel::Dot => "Dot"@,
        TokenModel::Semicolon => "Semicolon"@,
        TokenModel::Plus => "Plus"@,
        TokenModel::Minus => "Minus"@,
        TokenModel::Star => "Star"@,
        TokenModel::Slash => "Slash"@,
        TokenModel::Bang => "Bang"@,
        TokenModel::BangEqual => "BangEqual"@,
        TokenModel::Greater => "Greater"@,
        TokenModel::GreaterEqual => "GreaterEqual"@,
        TokenModel::Less => "Less"@,
        TokenModel::LessEqual => "LessEqual"@,
        TokenModel::Equal => "Equal"@,
        TokenModel::EqualEqual => "EqualEqual"@,
        TokenModel::Question => "Question"@,
        TokenModel::QuestionDot => "QuestionDot"@,
        TokenModel::QuestionElvis => "QuestionElvis"@,
        TokenModel::Active => "Active"@,
        TokenModel::Class => "Class"@,
        TokenModel::Spawn => "Spawn"@,
        TokenModel::If => "If"@,
        TokenModel::Else => "Else"@,
        TokenModel::Elif => "Elif"@,
        TokenModel::While => "While"@,
        TokenModel::Foreach => "Foreach"@,
        TokenModel::Break => "Break"@,
        TokenModel::Continue => "Continue"@,
        TokenModel::In => "In"@,
        TokenModel::Fun => "Fun"@,
        TokenModel::From => "From"@,
        TokenModel::Import => "Import"@,
        TokenModel::True => "True"@,
        TokenModel::False => "False"@,
        TokenModel::Nil => "Nil"@,
        TokenModel::And => "And"@,
        TokenModel::Or => "Or"@,
        TokenModel::Not => "Not"@,
        TokenModel::Void => "Void"@,
        TokenModel::This => "This"@,
        TokenModel::Return => "Return"@,
        TokenModel::EOF => "EOF"@,
        TokenModel::Identifier(s) => "Identifier("@ + quoted(s) + ")"@,
        TokenModel::OwnIdentifier(s) => "OwnIdentifier("@ + quoted(s) + ")"@,
        TokenModel::TypeIdentifier(s) => "TypeIdentifier("@ + quoted(s) + ")"@,
        TokenModel::String(s) => "String("@ + quoted(s) + ")"@,
        TokenModel::Float(s) => "Float("@ + s + ")"@,
        TokenModel::Integer(i) => "Integer("@ + decimal_of_int(i) + ")"@,
    }
}

fn text_of(s: &str) -> (r: String)
    ensures
        r@ == s@,
{
    let cs = chars_of(s);
    string_from_chars(cs.as_slice())
}

/// `head`, then `s` (quoted and escaped where `quote`), then `)`; `head`
/// ends with the opening quote where `quote`.
fn wrapped(head: &str, s: &str, quote: bool) -> (r: String)
    ensures
        quote && head@ == "Identifier(\""@ ==> r@ == "Identifier("@ + quoted(s@) + ")"@,
        quote && head@ == "OwnIdentifier(\""@ ==> r@ == "OwnIdentifier("@ + quoted(s@) + ")"@,
        quote && head@ == "TypeIdentifier(\""@ ==> r@ == "TypeIdentifier("@ + quoted(s@) + ")"@,
        quote && head@ == "String(\""@ ==> r@ == "String("@ + quoted(s@) + ")"@,
        !quote && head@ == "Float("@ ==> r@ == "Float("@ + s@ + ")"@,
{
    let mut out = chars_of(head);
    if quote {
        push_escaped(&mut out, s);
        out.push('"');
    } else {
        let cs = chars_of(s);
        extend_chars(&mut out, cs.as_slice());
    }
    out.push(')');
    proof {
        reveal_strlit("Identifier(\"");
        reveal_strlit("OwnIdentifier(\"");
        reveal_strlit("TypeIdentifier(\"");
        reveal_strlit("String(\"");
        reveal_strlit("Float(");
        reveal_strlit("Identifier(");
        reveal_strlit("OwnIdentifier(");
        reveal_strlit("TypeIdentifier(");
        reveal_strlit("String(");
        reveal_strlit(")");
        if quote && head@ == "Identifier(\""@ {
            assert(out@ =~= "Identifier("@ + quoted(s@) + ")"@);
        }
        if quote && head@ == "OwnIdentifier(\""@ {
            assert(out@ =~= "OwnIdentifier("@ + quoted(s@) + ")"@);
        }
        if quote && head@ == "TypeIdentifier(\""@ {
            assert(out@ =~= "TypeIdentifier("@ + quoted(s@) + ")"@);
        }
        if quote && head@ == "String(\""@ {
            assert(out@ =~= "String("@ + quoted(s@) + ")"@);
        }
        if !quote && head@ == "Float("@ {
            assert(out@ =~= "Float("@ + s@ + ")"@);
        }
    }
    string_from_chars(out.as_slice())
}

/// The Debug text of a token (see `token_text`).
pub fn token_debug_text(t: &Token) -> (r: String)
    ensures
        r@ == token_text(t@),
{
    match t {
        Token::LeftParenthesis => text_of("LeftParenthesis"),
        Token::RightParenthesis => text_of("RightParenthesis"),
        Token::LeftCurlyBrackets => text_of("LeftCurlyBrackets"),
        Token::RightCurlyBrackets => text_of("RightCurlyBrackets"),
        Token::LeftSquareBrackets => text_of("LeftSquareBrackets"),
        Token::RightSquareBrackets => text_of("RightSquareBrackets"),
        Token::Comma => text_of("Comma"),
        Token::Dot => text_of("Dot"),
        Token::Semicolon => text_of("Semicolon"),
        Token::Plus => text_of("Plus"),
        Token::Minus => text_of("Minus"),
        Token::Star => text_of("Star"),
        Token::Slash => text_of("Slash"),
        Token::Bang => text_of("Bang"),
        Token::BangEqual => text_of("BangEqual"),
        Token::Greater => text_of("Greater"),
        Token::GreaterEqual => text_of("GreaterEqual"),
        Token::Less => text_of("Less"),
        Token::LessEqual => text_of("LessEqual"),
        Token::Equal => text_of("Equal"),
        Token::EqualEqual => text_of("EqualEqual"),
        Token::Question => text_of("Question"),
        Token::QuestionDot => text_of("QuestionDot"),
        Token::QuestionElvis => text_of("QuestionElvis"),
        Token::Active => text_of("Active"),
        Token::Class => text_of("Class"),
        Token::Spawn => text_of("Spawn"),
        Token::If => text_of("If"),
        Token::Else => text_of("Else"),
        Token::Elif => text_of("Elif"),
        Token::While => text_of("While"),
        Token::Foreach => text_of("Foreach"),
        Token::Break => text_of("Break"),
        Token::Continue => text_of("Continue"),
        Token::In => text_of("In"),
        Token::Fun => text_of("Fun"),
        Token::From => text_of("From"),
        Token::Import => text_of("Import"),
        Token::True => text_of("True"),
        Token::False => text_of("False"),
        Token::Nil => text_of("Nil"),
        Token::And => text_of("And"),
        Token::Or => text_of("Or"),
        Token::Not => text_of("Not"),
        Token::Void => text_of("Void"),
        Token::This => text_of("This"),
        Token::Return => text_of("Return"),
        Token::EOF => text_of("EOF"),
        Token::Identifier(s) => wrapped("Identifier(\"", s.as_str(), true),
        Token::OwnIdentifier(s) => wrapped("OwnIdentifier(\"", s.as_str(), true),
        Token::TypeIdentifier(s) => wrapped("TypeIdentifier(\"", s.as_str(), true),
        Token::String(s) => wrapped("String(\"", s.as_str(), true),
        Token::Float(s) => wrapped("Float(", s.as_str(), false),
        Token::Integer(i) => {
            let mut out = chars_of("Integer(");
            let d = decimal_i64(*i);
            extend_chars(&mut out, d.as_slice());
            out.push(')');
            proof {
                reveal_strlit("Integer(");
                reveal_strlit(")");
                assert(out@ =~= "Integer("@ + decimal_of_int(*i as int) + ")"@);
            }
            string_from_chars(out.as_slice())
        },
    }
}

/// `s` with its first letter, if it is an ASCII lower-case letter, made
/// upper case.
pub open spec fn capitalized(s: Seq<char>) -> Seq<char> {
    if s.len() > 0 && 'a' <= s[0] && s[0] <= 'z' {
        seq![((s[0] as u32) - 32) as char] + s.skip(1)
    } else {
        s
    }
}

/// Each keyword scans to the token of its own name: the token's text is the
/// keyword with a capital first letter. So two different spellings never
/// give the same keyword token.
pub proof fn law_keywords_name_their_tokens(s: Seq<char>, other: Seq<char>)
    ensures
        keyword(s) matches Some(t) ==> token_text(t) == capitalized(s),
        keyword(s) is Some && keyword(other) == keyword(s) ==> other == s,
{
    if keyword(s) is Some {
        reveal_strlit("active");
        reveal_strlit("Active");
        reveal_strlit("class");
        reveal_strlit("Class");
        reveal_strlit("spawn");
        reveal_strlit("Spawn");
        reveal_strlit("if");
        reveal_strlit("If");
        reveal_strlit("else");
        reveal_strlit("Else");
        reveal_strlit("elif");
        reveal_strlit("Elif");
        reveal_strlit("while");
        reveal_strlit("While");
        reveal_strlit("foreach");
        reveal_strlit("Foreach");
        reveal_strlit("break");
        reveal_strlit("Break");
        reveal_strlit("continue");
        reveal_strlit("Continue");
        reveal_strlit("in");
        reveal_strlit("In");
        reveal_strlit("fun");
        reveal_strlit("Fun");
        reveal_strlit("from");
        reveal_strlit("From");
        reveal_strlit("import");
        reveal_strlit("Import");
        reveal_strlit("true");
        reveal_strlit("True");
        reveal_strlit("false");
        reveal_strlit("False");
        reveal_strlit("nil");
        reveal_strlit("Nil");
        reveal_strlit("and");
        reveal_strlit("And");
        reveal_strlit("or");
        reveal_strlit("Or");
        reveal_strlit("not");
        reveal_strlit("Not");
        reveal_strlit("void");
        reveal_strlit("Void");
        reveal_strlit("this");
        reveal_strlit("This");
        reveal_strlit("return");
        reveal_strlit("Return");
        assert(token_text(keyword(s)->0) =~= capitalized(s));
    }
}

} // verus!
