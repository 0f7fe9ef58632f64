use frisbee::alias::ModuleAlias;
use frisbee::ast::{BinaryOp, Type, UnaryOp};
use frisbee::semantic_checker::annotations::annotate_type;
use frisbee::semantic_checker::expressions::{ExprRaw, ExprTypeChecker};
use frisbee::semantic_checker::real_type::{type_to_real, type_vec_to_typed_fields, RType};
use frisbee::semantic_checker::resolvers::{compile_method, compile_name, get_origins, FileSymbols, NameResolver};
use frisbee::semantic_checker::symbols::{
    ClassSignature, FunctionSignature, GlobalSignatures, GlobalSymbolsInfo, SymbolOrigin, SymbolOriginsPerFile,
};
use frisbee::semantic_checker::true_type::{type_to_true, CustomType, TrueType, TypedFields};

fn alias(name: &str) -> ModuleAlias {
    ModuleAlias::new(&[name.to_string()])
}

fn origin(module: &str, name: &str) -> SymbolOrigin {
    SymbolOrigin { module: alias(module), name: name.to_string() }
}

fn boxed(e: ExprRaw) -> Box<ExprRaw> {
    Box::new(e)
}

/// A program of one file `main` with a function `f(Int a) -> Int`, a
/// passive class `Point(Int x)` with a method `norm() -> Int`, and an
/// active class `Worker()`.
fn symbols() -> GlobalSymbolsInfo {
    let file = SymbolOriginsPerFile {
        typenames: vec![
            ("Point".to_string(), origin("main", "Point")),
            ("Worker".to_string(), origin("main", "Worker")),
        ],
        functions: vec![("f".to_string(), origin("main", "f"))],
    };
    let point = ClassSignature {
        is_active: false,
        fields: vec![("x".to_string(), Type::Int)],
        methods: vec![
            (
                "Point".to_string(),
                FunctionSignature {
                    rettype: Type::IdentQualified(alias("main"), "Point".to_string()),
                    args: vec![("x".to_string(), Type::Int)],
                },
            ),
            ("norm".to_string(), FunctionSignature { rettype: Type::Int, args: vec![] }),
        ],
    };
    let worker = ClassSignature {
        is_active: true,
        fields: vec![],
        methods: vec![(
            "Worker".to_string(),
            FunctionSignature { rettype: Type::IdentQualified(alias("main"), "Worker".to_string()), args: vec![] },
        )],
    };
    GlobalSymbolsInfo {
        symbols_per_file: vec![(alias("main"), file)],
        global_signatures: GlobalSignatures {
            typenames: vec![(origin("main", "Point"), point), (origin("main", "Worker"), worker)],
            functions: vec![(
                origin("main", "f"),
                FunctionSignature { rettype: Type::Int, args: vec![("a".to_string(), Type::Int)] },
            )],
        },
    }
}

#[test]
fn checker_types_literals_and_operators() {
    let info = symbols();
    let checker = ExprTypeChecker::new(&info, alias("main"), None);
    assert_eq!(checker.calculate(&ExprRaw::Int(1)), Ok(Type::Int));
    assert_eq!(checker.calculate(&ExprRaw::Float(0)), Ok(Type::Float));
    let sum = ExprRaw::BinOp { left: boxed(ExprRaw::Int(1)), right: boxed(ExprRaw::Int(2)), op: BinaryOp::Plus };
    assert_eq!(checker.calculate(&sum), Ok(Type::Int));
    let not = ExprRaw::UnaryOp { op: UnaryOp::Not, operand: boxed(ExprRaw::Bool(true)) };
    assert_eq!(checker.calculate(&not), Ok(Type::Bool));
}

#[test]
fn checker_declared_variable_reads_back_its_type() {
    let info = symbols();
    let mut checker = ExprTypeChecker::new(&info, alias("main"), None);
    let x = ExprRaw::Identifier("x".to_string());
    assert_eq!(checker.calculate(&x), Err("In file main:  unknown variable x".to_string()));
    assert_eq!(checker.add_variable("x".to_string(), Type::String), Ok(()));
    assert_eq!(checker.calculate(&x), Ok(Type::String));
    assert_eq!(checker.add_variable("x".to_string(), Type::Bool), Err("Variable x already declared".to_string()));
    assert_eq!(checker.calculate(&x), Ok(Type::Bool));
    checker.reset_variables();
    assert!(checker.calculate(&x).is_err());
}

#[test]
fn checker_lists_and_tuples() {
    let info = symbols();
    let checker = ExprTypeChecker::new(&info, alias("main"), None);
    assert_eq!(
        checker.calculate(&ExprRaw::ListValue(vec![])),
        Ok(Type::List(Box::new(Type::Anonymous)))
    );
    assert_eq!(
        checker.calculate(&ExprRaw::ListValue(vec![ExprRaw::Int(1), ExprRaw::Int(2)])),
        Ok(Type::List(Box::new(Type::Int)))
    );
    assert_eq!(
        checker.calculate(&ExprRaw::ListValue(vec![ExprRaw::Int(1), ExprRaw::Bool(true)])),
        Err("In file main:  list items have different types: [Int, Bool]".to_string())
    );
    let tuple = ExprRaw::TupleValue(vec![ExprRaw::Int(1), ExprRaw::String("s".to_string())]);
    assert_eq!(checker.calculate(&tuple), Ok(Type::Tuple(vec![Type::Int, Type::String])));

    let second = ExprRaw::ListAccess { list: boxed(tuple), index: boxed(ExprRaw::Int(1)) };
    assert_eq!(checker.calculate(&second), Ok(Type::String));
    let tuple = ExprRaw::TupleValue(vec![ExprRaw::Int(1)]);
    let outside = ExprRaw::ListAccess { list: boxed(tuple), index: boxed(ExprRaw::Int(5)) };
    assert_eq!(
        checker.calculate(&outside),
        Err("In file main:  Out of bounds index in TupleValue([Int(1)])".to_string())
    );
    let list = ExprRaw::ListValue(vec![ExprRaw::Int(1)]);
    let by_bool = ExprRaw::ListAccess { list: boxed(list), index: boxed(ExprRaw::Bool(false)) };
    assert_eq!(
        checker.calculate(&by_bool),
        Err("List index must be int, but got Bool in Bool(false)".to_string())
    );
}

#[test]
fn checker_function_calls() {
    let info = symbols();
    let checker = ExprTypeChecker::new(&info, alias("main"), None);
    let call = |args: Vec<ExprRaw>| ExprRaw::FunctionCall { function: "f".to_string(), args };
    assert_eq!(checker.calculate(&call(vec![ExprRaw::Int(3)])), Ok(Type::Int));
    assert_eq!(
        checker.calculate(&call(vec![])),
        Err("In file main:  Wrong amount of arguments at [], expected 1".to_string())
    );
    assert_eq!(
        checker.calculate(&call(vec![ExprRaw::Bool(true)])),
        Err("Wrong type for argument a, expected Int, got Bool (Bool(true))".to_string())
    );
    let missing = ExprRaw::FunctionCall { function: "g".to_string(), args: vec![] };
    assert_eq!(checker.calculate(&missing), Err("In file main:  Function g not found".to_string()));
}

#[test]
fn checker_classes_methods_and_fields() {
    let info = symbols();
    let checker = ExprTypeChecker::new(&info, alias("main"), None);
    let point = ExprRaw::NewClassInstance { typename: "Point".to_string(), args: vec![ExprRaw::Int(1)] };
    let point_type = Type::IdentQualified(alias("main"), "Point".to_string());
    assert_eq!(checker.calculate(&point), Ok(point_type));
    let norm = ExprRaw::MethodCall { object: boxed(point), method: "norm".to_string(), args: vec![] };
    assert_eq!(checker.calculate(&norm), Ok(Type::Int));

    let point = ExprRaw::NewClassInstance { typename: "Point".to_string(), args: vec![ExprRaw::Int(1)] };
    let field = ExprRaw::FieldAccess { object: boxed(point), field: "x".to_string() };
    assert_eq!(checker.calculate(&field), Ok(Type::Int));

    let worker = ExprRaw::NewClassInstance { typename: "Worker".to_string(), args: vec![] };
    assert_eq!(checker.calculate(&worker), Err("In file main:  You must call spawn for Worker".to_string()));
    let spawned = ExprRaw::SpawnActive { typename: "Worker".to_string(), args: vec![] };
    assert_eq!(checker.calculate(&spawned), Ok(Type::IdentQualified(alias("main"), "Worker".to_string())));
    let passive = ExprRaw::SpawnActive { typename: "Point".to_string(), args: vec![ExprRaw::Int(1)] };
    assert_eq!(checker.calculate(&passive), Err("In file main:  Cant spawn passive Point!".to_string()));
    let unknown = ExprRaw::NewClassInstance { typename: "Nope".to_string(), args: vec![] };
    assert_eq!(checker.calculate(&unknown), Err("In file main:  Type Nope not found".to_string()));

    let no_fields = ExprRaw::FieldAccess { object: boxed(ExprRaw::Int(1)), field: "x".to_string() };
    assert_eq!(checker.calculate(&no_fields), Err("Error at Int(1) - type Int has no fields".to_string()));
}

#[test]
fn checker_list_methods() {
    let info = symbols();
    let checker = ExprTypeChecker::new(&info, alias("main"), None);
    let list = || boxed(ExprRaw::ListValue(vec![ExprRaw::Int(1)]));
    let size = ExprRaw::MethodCall { object: list(), method: "size".to_string(), args: vec![] };
    assert_eq!(checker.calculate(&size), Ok(Type::Int));
    let push = ExprRaw::MethodCall { object: list(), method: "push".to_string(), args: vec![ExprRaw::Int(2)] };
    assert_eq!(checker.calculate(&push), Ok(Type::Nil));
    let pop = ExprRaw::MethodCall { object: list(), method: "pop".to_string(), args: vec![] };
    assert_eq!(checker.calculate(&pop), Err("Cant find method pop for type List(Int)".to_string()));
}

#[test]
fn checker_own_members_and_this() {
    let info = symbols();
    let free = ExprTypeChecker::new(&info, alias("main"), None);
    assert_eq!(
        free.calculate(&ExprRaw::This),
        Err("Using 'this' in the functions is not allowed!".to_string())
    );
    assert_eq!(
        free.calculate(&ExprRaw::OwnFieldAccess { field: "x".to_string() }),
        Err("In file main:  Using @ is not allowed in functions".to_string())
    );
    let method = ExprTypeChecker::new(&info, alias("main"), Some("Point".to_string()));
    assert_eq!(
        method.calculate(&ExprRaw::This),
        Ok(Type::IdentQualified(alias("main"), "Point".to_string()))
    );
    assert_eq!(method.calculate(&ExprRaw::OwnFieldAccess { field: "x".to_string() }), Ok(Type::Int));
    assert_eq!(
        method.calculate(&ExprRaw::OwnFieldAccess { field: "y".to_string() }),
        Err("In file main:  y not found".to_string())
    );
    assert_eq!(
        method.calculate(&ExprRaw::OwnMethodCall { method: "norm".to_string(), args: vec![] }),
        Ok(Type::Int)
    );
}

#[test]
fn resolver_names_and_origins() {
    assert_eq!(compile_name(&alias("mod"), &"f".to_string()), "mod::f");
    assert_eq!(compile_method(&alias("mod"), &"T".to_string(), &"m".to_string()), "mod::T::m");
    let symbols = vec![(alias("main"), "f".to_string()), (alias("lib"), "g".to_string())];
    assert_eq!(
        get_origins(&symbols),
        Ok(vec![("f".to_string(), "main::f".to_string()), ("g".to_string(), "lib::g".to_string())])
    );
    let twice = vec![
        (alias("main"), "f".to_string()),
        (alias("lib"), "g".to_string()),
        (alias("lib"), "f".to_string()),
        (alias("lib"), "g".to_string()),
    ];
    assert_eq!(get_origins(&twice), Err("f".to_string()));
}

#[test]
fn resolver_refuses_a_name_seen_twice() {
    let good = FileSymbols {
        module: alias("main"),
        typenames: vec![(alias("main"), "T".to_string())],
        functions: vec![(alias("lib"), "f".to_string())],
        imports: vec![alias("lib")],
    };
    assert!(NameResolver::create(&vec![good]).is_ok());
    let bad_types = FileSymbols {
        module: alias("main"),
        typenames: vec![(alias("main"), "T".to_string()), (alias("lib"), "T".to_string())],
        functions: vec![],
        imports: vec![],
    };
    assert_eq!(NameResolver::create(&vec![bad_types]).err(), Some("Type T defined twice in main".to_string()));
    let bad_functions = FileSymbols {
        module: alias("other"),
        typenames: vec![(alias("main"), "T".to_string()), (alias("lib"), "T".to_string())],
        functions: vec![(alias("main"), "f".to_string()), (alias("main"), "f".to_string())],
        imports: vec![],
    };
    assert_eq!(
        NameResolver::create(&vec![bad_functions]).err(),
        Some("Function f defined twice in other".to_string())
    );
}

#[test]
fn resolver_refuses_a_module_importing_itself() {
    let looping = FileSymbols {
        module: alias("main"),
        typenames: vec![(alias("main"), "T".to_string()), (alias("main"), "T".to_string())],
        functions: vec![],
        imports: vec![alias("lib"), alias("main")],
    };
    assert_eq!(
        NameResolver::create(&vec![looping]).err(),
        Some("Module \"main\" is importing itself!".to_string())
    );
}

#[test]
fn real_types_of_source_types() {
    let resolver = vec![("T".to_string(), "lib::T".to_string())];
    assert_eq!(
        type_to_real(&Type::Maybe(Box::new(Type::Int)), &resolver),
        Some(RType::Tuple(vec![RType::Bool, RType::Int]))
    );
    assert_eq!(
        type_to_real(&Type::List(Box::new(Type::Ident("T".to_string()))), &resolver),
        Some(RType::List(Box::new(RType::Custom("lib::T".to_string()))))
    );
    assert_eq!(
        type_to_real(&Type::IdentQualified(alias("m"), "U".to_string()), &resolver),
        Some(RType::Custom("m::U".to_string()))
    );
    assert_eq!(type_to_real(&Type::Ident("Missing".to_string()), &resolver), None);
    assert_eq!(type_to_real(&Type::Tuple(vec![Type::Int, Type::Anonymous]), &resolver), None);

    let fields = vec![("a".to_string(), Type::Int), ("b".to_string(), Type::Ident("T".to_string()))];
    let typed = type_vec_to_typed_fields(&fields, &resolver).unwrap();
    assert_eq!(typed.names, vec![("a".to_string(), 0), ("b".to_string(), 1)]);
    assert_eq!(typed.types, vec![RType::Int, RType::Custom("lib::T".to_string())]);
}

#[test]
fn true_types_refer_to_definitions() {
    let definitions = vec![(
        "lib::T".to_string(),
        CustomType { name: "lib::T".to_string(), fields: TypedFields { field_names: vec![], field_types: vec![] } },
    )];
    match type_to_true(&Type::IdentQualified(alias("lib"), "T".to_string()), &definitions) {
        Some(TrueType::Custom(c)) => assert_eq!(c.name, "lib::T"),
        _ => panic!("expected a custom type"),
    }
    match type_to_true(&Type::Maybe(Box::new(Type::Bool)), &definitions) {
        Some(TrueType::Tuple(items)) => {
            assert_eq!(items.len(), 2);
            assert!(matches!(items[0], TrueType::Bool));
            assert!(matches!(items[1], TrueType::Bool));
        },
        _ => panic!("expected a tuple"),
    }
    assert!(type_to_true(&Type::Ident("U".to_string()), &definitions).is_none());
}

#[test]
fn annotation_qualifies_user_types() {
    let mapping = vec![("T".to_string(), origin("lib", "T"))];
    let t = Type::Tuple(vec![Type::Ident("T".to_string()), Type::List(Box::new(Type::Int))]);
    let annotated = annotate_type(&t, &mapping).unwrap();
    assert_eq!(
        annotated,
        Type::Tuple(vec![Type::IdentQualified(alias("lib"), "T".to_string()), Type::List(Box::new(Type::Int))])
    );
    assert_eq!(annotate_type(&annotated, &mapping).unwrap(), annotated);
    assert_eq!(
        annotate_type(&Type::Maybe(Box::new(Type::Ident("X".to_string()))), &mapping),
        Err("Unknown type X".to_string())
    );
}
