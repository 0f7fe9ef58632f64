use frisbee::alias::ModuleAlias;
use frisbee::ast::Type;
use frisbee::loader::parse_contents;
use frisbee::semantic_checker::annotations::{annotate_class_decl, annotate_function_decl};
use frisbee::semantic_checker::symbols::SymbolOrigin;

fn main_alias() -> ModuleAlias {
    ModuleAlias::new(&["main".to_string()])
}

fn person_mapping() -> Vec<(String, SymbolOrigin)> {
    vec![("Person".to_string(), SymbolOrigin { module: main_alias(), name: "Person".to_string() })]
}

fn person() -> Type {
    Type::IdentQualified(main_alias(), "Person".to_string())
}

#[test]
fn declared_constructor_is_kept() {
    let ast = parse_contents("class Person {\n    String name;\n    Int age;\n\n    fun Person() {}\n}\n").ok().unwrap();
    let sig = annotate_class_decl(&ast.types[0], &person_mapping()).ok().unwrap();
    assert!(!sig.is_active);
    assert_eq!(sig.fields, vec![("name".to_string(), Type::String), ("age".to_string(), Type::Int)]);
    assert_eq!(sig.methods.len(), 1);
    assert_eq!(sig.methods[0].0, "Person");
    assert_eq!(sig.methods[0].1.rettype, person());
    assert!(sig.methods[0].1.args.is_empty());
}

#[test]
fn default_constructor_takes_the_fields() {
    let ast = parse_contents("class Person {\n    String name;\n    Int age;\n}\n").ok().unwrap();
    let sig = annotate_class_decl(&ast.types[0], &person_mapping()).ok().unwrap();
    let fields = vec![("name".to_string(), Type::String), ("age".to_string(), Type::Int)];
    assert_eq!(sig.fields, fields);
    assert_eq!(sig.methods.len(), 1);
    assert_eq!(sig.methods[0].0, "Person");
    assert_eq!(sig.methods[0].1.rettype, person());
    assert_eq!(sig.methods[0].1.args, fields);
}

#[test]
fn class_fields_and_methods_are_annotated() {
    let ast = parse_contents("active Person {\n    [Person] friends;\n    fun Person best(Int i) {}\n}\n").ok().unwrap();
    let sig = annotate_class_decl(&ast.types[0], &person_mapping()).ok().unwrap();
    assert!(sig.is_active);
    assert_eq!(sig.fields, vec![("friends".to_string(), Type::List(Box::new(person())))]);
    assert_eq!(sig.methods.len(), 2);
    assert_eq!(sig.methods[0].0, "best");
    assert_eq!(sig.methods[0].1.rettype, person());
    assert_eq!(sig.methods[0].1.args, vec![("i".to_string(), Type::Int)]);
    assert_eq!(sig.methods[1].0, "Person");
}

#[test]
fn unknown_type_in_a_class_is_an_error() {
    let ast = parse_contents("class Person {\n    Car car;\n}\n").ok().unwrap();
    let r = annotate_class_decl(&ast.types[0], &person_mapping());
    assert_eq!(r.err(), Some("Unknown type Car".to_string()));
}

#[test]
fn unknown_class_has_no_default_constructor() {
    let ast = parse_contents("class Person {\n    Int age;\n}\n").ok().unwrap();
    let r = annotate_class_decl(&ast.types[0], &vec![]);
    assert_eq!(r.err(), Some("Unknown type Person".to_string()));
}

#[test]
fn function_without_return_type_returns_nil() {
    let ast = parse_contents("fun void f(Person p, (Int, String) t) {}\n").ok().unwrap();
    let sig = annotate_function_decl(&ast.functions[0], &person_mapping()).ok().unwrap();
    assert_eq!(sig.rettype, Type::Nil);
    assert_eq!(
        sig.args,
        vec![
            ("p".to_string(), person()),
            ("t".to_string(), Type::Tuple(vec![Type::Int, Type::String])),
        ]
    );
}
