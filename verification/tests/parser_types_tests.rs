use frisbee::parsing::parser::{ParseResult, Parser};
use frisbee::parsing::scanner::{scan_tokens, Token};
use frisbee::types::ParsedType as T;

fn parse_type_of(s: &str) -> ParseResult<T> {
    let (tokens, status) = scan_tokens(s);
    assert!(status.is_ok(), "Error on scanning: {:?}", status);
    let mut parser = Parser::create(&tokens);
    parser.parse_type()
}

fn assert_type_parses(s: &str, t: T) {
    match parse_type_of(s) {
        Ok(parsed) => assert_eq!(parsed, t),
        Err(e) => panic!("{} did not parse: {:?}", s, e),
    }
}

fn assert_parsing_fails(s: &str) {
    assert!(parse_type_of(s).is_err(), "{} parsed", s);
}

#[test]
fn tests_types_simple_types() {
    assert_type_parses("String", T::String);
    assert_type_parses("Int", T::Int);
    assert_type_parses("Float", T::Float);

    assert_type_parses("Bool", T::Bool);

    assert_type_parses("StriNG", T::Custom(String::from("StriNG")));
    assert_type_parses("SomeClass", T::Custom(String::from("SomeClass")));
}

#[test]
fn tests_types_types_parsing_errors() {
    assert_parsing_fails("string");
    assert_parsing_fails("int");
    assert_parsing_fails("asd");

    assert_parsing_fails("?");
    assert_parsing_fails("[String");
    assert_parsing_fails("[[String]");
    assert_parsing_fails("(String(");
    assert_parsing_fails(")String");
    assert_parsing_fails(")String");
}

#[test]
fn tests_types_list_types() {
    assert_type_parses("[String]", T::List(Box::new(T::String)));
    assert_type_parses(
        "[[Actor]]",
        T::List(Box::new(T::List(Box::new(T::Custom(String::from("Actor")))))),
    );

    assert_parsing_fails("[ ]");
    assert_parsing_fails("[Int, String]");
    assert_parsing_fails("[Int, ]");
}

#[test]
fn tests_types_maybe_types() {
    assert_type_parses("String?", T::Maybe(Box::new(T::String)));
    assert_type_parses(
        "[Actor?]?",
        T::Maybe(Box::new(T::List(Box::new(T::Maybe(Box::new(T::Custom("Actor".into()))))))),
    );
}

#[test]
fn tests_types_tuple_types() {
    assert_type_parses("(String, Int)", T::Tuple(vec![T::String, T::Int]));
    assert_type_parses(
        "(Actor, (Bool, Class, Passive), Int)",
        T::Tuple(vec![
            T::Custom(String::from("Actor")),
            T::Tuple(vec![T::Bool, T::Custom(String::from("Class")), T::Custom(String::from("Passive"))]),
            T::Int,
        ]),
    );

    // Allow trailing commas here
    assert_type_parses("(String, Int, )", T::Tuple(vec![T::String, T::Int]));

    // Single element tuple is shrinked to just that element
    assert_type_parses("(String)", T::String);
    assert_type_parses("(Actor, )", T::Custom(String::from("Actor")));

    // Empty tuple is not allowed
    assert_parsing_fails("()");
}

#[test]
fn tests_types_complex_types_maybe_and_list_order() {
    assert_type_parses("[Int]?", T::Maybe(Box::new(T::List(Box::new(T::Int)))));

    assert_type_parses("[Int?]", T::List(Box::new(T::Maybe(Box::new(T::Int)))));
}

#[test]
fn tests_types_complex_types() {
    assert_type_parses(
        "(Actor?, [Bool])",
        T::Tuple(vec![T::Maybe(Box::new(T::Custom(String::from("Actor")))), T::List(Box::new(T::Bool))]),
    );
}

#[test]
fn tests_types_very_complex_types() {
    assert_type_parses(
        "[( [(Bool, Int?)]?, String )]",
        T::List(Box::new(T::Tuple(vec![
            T::Maybe(Box::new(T::List(Box::new(T::Tuple(vec![T::Bool, T::Maybe(Box::new(T::Int))]))))),
            T::String,
        ]))),
    );
}

#[test]
fn type_errors_point_at_their_token() {
    let err = parse_type_of("[Int, String]").err().expect("a list type holds one type");
    assert_eq!(err.error_msg, "Unexpected token");
    assert_eq!(err.expected, Some(Token::RightSquareBrackets));
    assert_eq!(err.error_at.token, Token::Comma);
    assert_eq!((err.error_at.first, err.error_at.last), (4, 4));

    let err = parse_type_of("()").err().expect("an empty tuple is refused");
    assert_eq!(err.error_msg, "Empty tuple is not allowed");
    assert_eq!(err.error_at.token, Token::EOF);
    assert_eq!(err.expected, None);

    let err = parse_type_of("int").err().expect("a lower-case name is no type");
    assert_eq!(err.error_msg, "Wrong token for type definition");
    assert_eq!(err.error_at.token, Token::Identifier("int".to_string()));
}
