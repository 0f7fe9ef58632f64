use frisbee::alias::ModuleAlias;
use frisbee::ast::display_verified::{Piece, TextPiece};
use frisbee::ast::verified::{RawFunction, RawOperator, TypedFields, VExpr, VExprTyped, VStatement};
use frisbee::errors::CompileError;
use frisbee::parsing::scanner::ScanningError;
use frisbee::symbols::{SymbolFunc, SymbolType};
use frisbee::types::Type;

fn render(pieces: &[TextPiece]) -> String {
    let mut s = String::new();
    for p in pieces {
        match p {
            Piece::Letter(c) => s.push(*c),
            Piece::Float(bits) => s.push_str(&f64::from_bits(*bits).to_string()),
        }
    }
    s
}

fn typed(expr: VExpr) -> VExprTyped {
    VExprTyped { expr, expr_type: Type::Int }
}

fn module() -> ModuleAlias {
    ModuleAlias::new(&["main".to_string()])
}

#[test]
fn display_expressions() {
    let sum = VExpr::ApplyOp {
        operator: RawOperator::AddInts,
        operands: vec![typed(VExpr::Int(1)), typed(VExpr::GetVar("x".to_string()))],
    };
    assert_eq!(render(&sum.display()), "(1 + x)");
    let neg = VExpr::ApplyOp { operator: RawOperator::UnaryNegateBool, operands: vec![typed(VExpr::Bool(true))] };
    assert_eq!(render(&neg.display()), "(! true)");
    let tuple = VExpr::TupleValue(vec![typed(VExpr::Int(-3)), typed(VExpr::String("a".to_string()))]);
    assert_eq!(render(&tuple.display()), "(-3, \"a\")");
    let item = VExpr::AccessTupleItem { tuple: Box::new(typed(tuple)), index: 1 };
    assert_eq!(render(&item.display()), "(-3, \"a\")[1]");
    let call = VExpr::CallFunction {
        name: SymbolFunc::new(&module(), "f"),
        return_type: Type::Int,
        args: vec![typed(VExpr::Float(1.5f64.to_bits())), typed(VExpr::Int(2))],
    };
    let pieces = call.display();
    assert_eq!(render(&pieces), "main::f(1.5, 2)");
    assert!(pieces.contains(&Piece::Float(1.5f64.to_bits())));
    let alloc = VExpr::Allocate { typename: SymbolType::new(&module(), "Point") };
    assert_eq!(render(&alloc.display()), "new main::Point");
    let dummy = VExpr::Dummy(Type::Maybe(Box::new(Type::Int)));
    assert_eq!(render(&dummy.display()), "@dummy(Int?)");
}

#[test]
fn display_statements_with_and_without_indent() {
    let assign = VStatement::AssignLocal {
        name: "x".to_string(),
        tuple_indexes: vec![0, 2],
        value: typed(VExpr::Int(7)),
    };
    assert_eq!(render(&assign.display_with_ident(false)), "x[0][2] = 7;");
    assert_eq!(render(&assign.display_with_ident(true)), "    x[0][2] = 7;");
    assert_eq!(assign.show_tuple_indexes(&[]), "");
    assert_eq!(assign.show_tuple_indexes(&[3]), "[3]");

    let while_loop = VStatement::While {
        condition: typed(VExpr::Bool(true)),
        body: vec![VStatement::Break, VStatement::Continue],
    };
    assert_eq!(
        render(&while_loop.display_with_ident(false)),
        "\nwhile true {\n    break;\n    continue;\n}\n"
    );
    assert_eq!(
        render(&while_loop.display_with_ident(true)),
        "    \n    while true {\n        break;\n        continue;\n    }\n    "
    );
}

#[test]
fn display_function_with_locals() {
    let f = RawFunction {
        name: SymbolFunc::new(&module(), "f"),
        return_type: Type::Int,
        args: TypedFields { types: vec![Type::Int, Type::Bool], names: vec!["a".to_string(), "b".to_string()] },
        body: vec![VStatement::Return(typed(VExpr::GetVar("a".to_string())))],
        locals: vec![("c".to_string(), Type::String)],
        short_name: "f".to_string(),
        method_of: None,
        is_constructor: false,
        defined_at: module(),
    };
    assert_eq!(
        render(&f.display()),
        "fn Int main::f (Int a, Bool b) {\n    // LOCALS START\n    String c;\n    // LOCALS_END\n\n    return a;\n }"
    );
}

#[test]
fn scanning_error_as_compile_error() {
    let e: ScanningError = ("Unknown symbol occured", 4);
    assert_eq!(e.get_position_window(), (4, 4));
    assert_eq!(e.get_message(), "Scanning error: Unknown symbol occured");
}
