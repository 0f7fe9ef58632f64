use frisbee::ast::{BinaryOp, Type, UnaryOp};
use frisbee::parsing::scanner::Token;
use frisbee::parsing::token_text::token_debug_text;
use frisbee::semantic_checker::expr_text::{expr_debug, exprs_debug};
use frisbee::semantic_checker::expressions::ExprRaw;

#[test]
fn token_texts_match_their_debug_form() {
    let tokens = vec![
        Token::LeftParenthesis,
        Token::QuestionElvis,
        Token::Identifier("name".to_string()),
        Token::OwnIdentifier("field".to_string()),
        Token::TypeIdentifier("Person".to_string()),
        Token::String("say \"hi\"\n\u{1}é".to_string()),
        Token::Integer(-42),
        Token::Return,
        Token::EOF,
    ];
    for t in tokens {
        assert_eq!(token_debug_text(&t), format!("{:?}", t));
    }
}

#[test]
fn float_token_shows_its_number() {
    assert_eq!(token_debug_text(&Token::Float("1.5".to_string())), "Float(1.5)");
}

fn sample() -> ExprRaw {
    ExprRaw::MethodCall {
        object: Box::new(ExprRaw::BinOp {
            left: Box::new(ExprRaw::Int(1)),
            right: Box::new(ExprRaw::UnaryOp { op: UnaryOp::Negate, operand: Box::new(ExprRaw::Float(4609434218613702656)) }),
            op: BinaryOp::Plus,
        }),
        method: "m\t".to_string(),
        args: vec![
            ExprRaw::ListValue(vec![]),
            ExprRaw::TupleValue(vec![ExprRaw::Bool(true), ExprRaw::Nil, ExprRaw::This]),
            ExprRaw::ListAccess { list: Box::new(ExprRaw::Identifier("xs".to_string())), index: Box::new(ExprRaw::Int(0)) },
            ExprRaw::FunctionCall { function: "f".to_string(), args: vec![ExprRaw::String("s".to_string())] },
            ExprRaw::FieldAccess { object: Box::new(ExprRaw::This), field: "a".to_string() },
            ExprRaw::OwnMethodCall { method: "g".to_string(), args: vec![] },
            ExprRaw::OwnFieldAccess { field: "b".to_string() },
            ExprRaw::NewClassInstance { typename: "P".to_string(), args: vec![ExprRaw::Int(2)] },
            ExprRaw::SpawnActive { typename: "A".to_string(), args: vec![] },
        ],
    }
}

#[test]
fn expression_texts_match_their_debug_form() {
    let e = sample();
    assert_eq!(expr_debug(&e), format!("{:?}", e));
    let es = vec![sample(), ExprRaw::Int(3)];
    assert_eq!(exprs_debug(&es), format!("{:?}", es));
    assert_eq!(exprs_debug(&vec![]), "[]");
}

#[test]
fn type_texts_escape_like_debug() {
    let t = Type::Ident("a\u{7f}\u{1b}ü".to_string());
    let mut out: Vec<char> = Vec::new();
    t.write_text(&mut out);
    assert_eq!(out.iter().collect::<String>(), format!("{:?}", t));
}
