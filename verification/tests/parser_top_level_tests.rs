use frisbee::ast::parsed::{
    ClassDecl, Expr, ExprWithPos, FileAst, FunctionDecl, ImportDecl, Statement, StatementWithPos, TypedItem,
};
use frisbee::parsing::declarations::parse;
use frisbee::parsing::parser::{ParseResult, Parser};
use frisbee::parsing::scanner::{scan_tokens, ScannedToken};
use frisbee::types::ParsedType as Type;

fn tokens_of(s: &str) -> Vec<ScannedToken> {
    let (tokens, status) = scan_tokens(s);
    assert!(status.is_ok(), "Error on scanning: {:?}", status);
    tokens
}

fn unwrap<T: std::fmt::Debug>(r: ParseResult<T>) -> T {
    match r {
        Ok(x) => x,
        Err(e) => panic!("Parse error: {:?}", e),
    }
}

fn parse_import_of(s: &str) -> ParseResult<ImportDecl> {
    let tokens = tokens_of(s);
    let mut parser = Parser::create(&tokens);
    parser.parse_import()
}

fn parse_object_of(s: &str, is_active: bool) -> ParseResult<ClassDecl> {
    let tokens = tokens_of(s);
    let mut parser = Parser::create(&tokens);
    parser.parse_object(is_active)
}

fn parse_file_of(s: &str) -> ParseResult<FileAst> {
    let tokens = tokens_of(s);
    let mut parser = Parser::create(&tokens);
    parser.parse_top_level()
}

fn item(t: Type, name: &str) -> TypedItem {
    TypedItem { typename: t, name: name.into() }
}

#[test]
fn simple_import() {
    assert_eq!(
        unwrap(parse_import_of("from module import Actor;")),
        ImportDecl { pos: 0, module: vec!["module".into()], typenames: vec![String::from("Actor")], functions: vec![] }
    );

    assert_eq!(
        unwrap(parse_import_of("from module.sub import func;")),
        ImportDecl {
            pos: 0,
            module: vec!["module".into(), "sub".into()],
            typenames: vec![],
            functions: vec!["func".into()]
        }
    );

    assert!(parse_import_of("from module import Type").is_err());
    assert!(parse_import_of("from module. import Type;").is_err());
    assert!(parse_import_of("from module.123 import Type").is_err());
}

#[test]
fn simple_import_of_functions() {
    assert_eq!(
        unwrap(parse_import_of("from module import func, Type, f;")),
        ImportDecl {
            pos: 0,
            module: vec!["module".into()],
            typenames: vec![String::from("Type")],
            functions: vec!["func".into(), "f".into()]
        }
    );
}

#[test]
fn multiple_imports() {
    assert_eq!(
        unwrap(parse_file_of("from some2 import Hello, There; from two import One;")),
        FileAst {
            imports: vec![
                ImportDecl {
                    pos: 0,
                    module: vec![String::from("some2")],
                    typenames: vec![String::from("Hello"), String::from("There")],
                    functions: vec![]
                },
                ImportDecl {
                    pos: 32,
                    module: vec![String::from("two")],
                    typenames: vec![String::from("One")],
                    functions: vec![]
                }
            ],
            types: vec![],
            functions: vec![],
        }
    );
}

#[test]
fn parse_function_definition() {
    let var_decl_statement = Statement::VarDeclWithAssign(
        Type::Int,
        "var".into(),
        ExprWithPos {
            expr: Expr::FunctionCall {
                function: "asd".into(),
                args: vec![ExprWithPos { expr: Expr::String("lol".into()), pos_first: 58, pos_last: 62 }],
            },
            pos_first: 54,
            pos_last: 63,
        },
    );
    assert_eq!(
        unwrap(parse_file_of(r#"fun void get_person(Int age, String name) { Int var = asd("lol"); } "#)),
        FileAst {
            imports: vec![],
            types: vec![],
            functions: vec![FunctionDecl {
                pos: 0,
                rettype: None,
                name: String::from("get_person"),
                args: vec![item(Type::Int, "age"), item(Type::String, "name")],
                statements: vec![StatementWithPos { statement: var_decl_statement, pos: 44 }],
            }]
        }
    );
}

#[test]
fn active_object_and_fields() {
    assert_eq!(
        unwrap(parse_object_of("active Actor { String name; Actor lol; }", true)),
        ClassDecl {
            pos: 0,
            is_active: true,
            name: String::from("Actor"),
            fields: vec![item(Type::String, "name"), item(Type::Custom(String::from("Actor")), "lol")],
            methods: vec![],
        }
    );
}

#[test]
fn class_object_and_methods() {
    assert_eq!(
        unwrap(parse_object_of("class Data { fun Bool get_person(Int age, String name) { this; } }", false)),
        ClassDecl {
            pos: 0,
            is_active: false,
            name: String::from("Data"),
            fields: vec![],
            methods: vec![FunctionDecl {
                pos: 13,
                rettype: Some(Type::Bool),
                name: String::from("get_person"),
                args: vec![item(Type::Int, "age"), item(Type::String, "name")],
                statements: vec![StatementWithPos {
                    statement: Statement::Expr(ExprWithPos { expr: Expr::This, pos_first: 57, pos_last: 60 }),
                    pos: 57
                }],
            }]
        }
    );
}

#[test]
fn class_object_constructor_method() {
    assert_eq!(
        unwrap(parse_object_of("class Data { fun Data() {} }", false)),
        ClassDecl {
            pos: 0,
            is_active: false,
            name: String::from("Data"),
            fields: vec![],
            methods: vec![FunctionDecl {
                pos: 13,
                rettype: Some(Type::Custom(String::from("Data"))),
                name: String::from("Data"),
                args: vec![],
                statements: vec![],
            }]
        }
    );

    // spawn is not allowed for classes
    assert!(parse_object_of("struct Data { fun Data Data() {} }", false).is_err());
    assert!(parse_object_of("struct Data { fun Data DataConstructor() {} }", false).is_err());
}

#[test]
fn active_object_constructor_method() {
    assert_eq!(
        unwrap(parse_object_of("active Actor { fun Actor() {} }", true)),
        ClassDecl {
            pos: 0,
            is_active: true,
            name: String::from("Actor"),
            fields: vec![],
            methods: vec![FunctionDecl {
                pos: 15,
                rettype: Some(Type::Custom(String::from("Actor"))),
                name: String::from("Actor"),
                args: vec![],
                statements: vec![],
            }]
        }
    );

    assert!(parse_object_of("active Actor { fun Actor Actor() {} }", true).is_err());
    assert!(parse_object_of("active Actor { fun ActorConstructor() {} }", true).is_err());
}

#[test]
fn whole_file_is_parsed_through_its_tokens() {
    let file = unwrap(parse(tokens_of("from m import f; class C { Int x; } fun void main() { f(); }")));
    assert_eq!(file.imports.len(), 1);
    assert_eq!(file.types.len(), 1);
    assert_eq!(file.functions.len(), 1);
    assert_eq!(file.functions[0].name, "main");

    let err = parse(tokens_of("return 1;")).err().expect("a statement is no declaration");
    assert_eq!(err.error_msg, "Only imports and fun/class/active declarations are allowed at top level!");

    let err = parse(tokens_of("fun (Int a) {}")).err().expect("a function needs a name");
    assert_eq!(err.error_msg, "Wrong token for type definition");

    let err = parse(tokens_of("fun Int (Int a) {}")).err().expect("a function needs a name");
    assert_eq!(err.error_msg, "Function is missing name");
}

#[test]
fn readme_declarations_parse() {
    let statement = |s: &str| {
        let tokens = tokens_of(s);
        let mut parser = Parser::create(&tokens);
        unwrap(parser.parse_statement()).statement
    };
    assert!(matches!(statement("Int i = 12;"), Statement::VarDeclWithAssign(Type::Int, _, _)));
    assert!(matches!(statement("Float f = 3.14;"), Statement::VarDeclWithAssign(Type::Float, _, _)));
    assert!(matches!(statement("Bool b = false;"), Statement::VarDeclWithAssign(Type::Bool, _, _)));
    assert!(matches!(statement("String s = \"Hello world\";"), Statement::VarDeclWithAssign(Type::String, _, _)));
    match statement("(String, Int) person = (\"Anton\", 24);") {
        Statement::VarDeclWithAssign(t, name, value) => {
            assert_eq!(t, Type::Tuple(vec![Type::String, Type::Int]));
            assert_eq!(name, "person");
            assert!(matches!(value.expr, Expr::TupleValue(ref items) if items.len() == 2));
        },
        other => panic!("unexpected {:?}", other),
    }
    match statement("[String] names = [\"Bob\", \"Alice\"] ;") {
        Statement::VarDeclWithAssign(t, _, value) => {
            assert_eq!(t, Type::List(Box::new(Type::String)));
            assert!(matches!(value.expr, Expr::ListValue(ref items) if items.len() == 2));
        },
        other => panic!("unexpected {:?}", other),
    }
    match statement("String? someone = nil;") {
        Statement::VarDeclWithAssign(t, _, value) => {
            assert_eq!(t, Type::Maybe(Box::new(Type::String)));
            assert_eq!(value.expr, Expr::Nil);
        },
        other => panic!("unexpected {:?}", other),
    }
    assert!(matches!(statement("someone = \"Mark\";"), Statement::Assign { .. }));
}

#[test]
fn readme_class_parses() {
    let class = unwrap(parse_object_of(
        "class Person {\n   (String, String?) name;\n   Int? age;\n\n   fun void say_hello() {\n       println(\"Hello, \", @name[0]);\n   }\n}",
        false,
    ));
    assert_eq!(class.name, "Person");
    assert_eq!(class.fields.len(), 2);
    assert_eq!(class.fields[1], item(Type::Maybe(Box::new(Type::Int)), "age"));
    assert_eq!(class.methods.len(), 1);
    assert_eq!(class.methods[0].name, "say_hello");
    assert_eq!(class.methods[0].rettype, None);
    match &class.methods[0].statements[0].statement {
        Statement::Expr(e) => match &e.expr {
            Expr::FunctionCall { function, args } => {
                assert_eq!(function, "println");
                assert_eq!(args.len(), 2);
                assert!(matches!(args[1].expr, Expr::ListAccess { .. }));
            },
            other => panic!("unexpected {:?}", other),
        },
        other => panic!("unexpected {:?}", other),
    }
}
