use frisbee::alias::ModuleAlias;
use frisbee::errors::CompileError;
use frisbee::loader::{parse_contents, FrisbeeModule, LoadError, WholeProgram};
use frisbee::parsing::parser::Parser;
use frisbee::parsing::scanner::scan_tokens;

fn alias(parts: &[&str]) -> ModuleAlias {
    let path: Vec<String> = parts.iter().map(|p| p.to_string()).collect();
    ModuleAlias::new(&path)
}

#[test]
fn parse_contents_gives_the_tree_or_the_error() {
    let ast = parse_contents("from sub.mod import Type; class Main {}").expect("a valid module parses");
    assert_eq!(ast.imports.len(), 1);
    assert_eq!(ast.imports[0].module, vec!["sub".to_string(), "mod".to_string()]);
    assert_eq!(ast.types.len(), 1);

    match parse_contents("class Main {") {
        Err(LoadError::Parsing(e)) => assert_eq!(e.error_msg, "Wrong token for type definition"),
        other => panic!("unexpected {:?}", other),
    }
    assert!(matches!(parse_contents("\"open"), Err(LoadError::Scanning(_))));
    assert!(matches!(parse_contents(""), Err(LoadError::Unscannable)));
}

#[test]
fn modules_are_loaded_once_following_imports() {
    let main = alias(&["main"]);
    let (mut program, mut stack) = WholeProgram::new(&main);
    let first = program.next_module(&mut stack).expect("the main module comes first");
    assert_eq!(first.as_string(), "main");

    let ast = parse_contents("from sub.mod import Type; from lib import f; class Main {}").unwrap();
    assert!(program.record_module(&mut stack, FrisbeeModule { alias: first, contents: String::new(), ast }));
    assert_eq!(stack.iter().map(|m| m.as_string()).collect::<Vec<_>>(), vec!["sub.mod", "lib"]);

    let next = program.next_module(&mut stack).expect("an import is loaded next");
    assert_eq!(next.as_string(), "lib");
    let ast = parse_contents("from main import Main; fun void f() {}").unwrap();
    assert!(program.record_module(&mut stack, FrisbeeModule { alias: next, contents: String::new(), ast }));

    // main is loaded already and is skipped
    let next = program.next_module(&mut stack).expect("sub.mod is left");
    assert_eq!(next.as_string(), "sub.mod");
    assert!(program.next_module(&mut stack).is_none());
    assert_eq!(program.modules.len(), 2);
    assert!(program.is_loaded(&alias(&["lib"])));
    assert!(!program.is_loaded(&alias(&["sub", "mod"])));
}

#[test]
fn parse_error_reports_its_token_and_expectation() {
    let (tokens, status) = scan_tokens("[Int, String]");
    assert!(status.is_ok());
    let mut parser = Parser::create(&tokens);
    let err = parser.parse_type().err().expect("a list type holds one type");
    assert_eq!(err.get_position_window(), (4, 4));
    assert_eq!(err.get_message(), "Unexpected token (Expected token <RightSquareBrackets>)");

    let (tokens, _) = scan_tokens("int");
    let mut parser = Parser::create(&tokens);
    let err = parser.parse_type().err().unwrap();
    assert_eq!(err.get_message(), "Wrong token for type definition");
}
