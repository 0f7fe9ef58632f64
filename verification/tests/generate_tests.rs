use frisbee::alias::ModuleAlias;
use frisbee::ast::verified::{RawFunction, TypedFields, VExpr, VExprTyped, VStatement};
use frisbee::codegen::generate;
use frisbee::disassemble_bytecode;
use frisbee::runtime::vm::Vm;
use frisbee::symbols::SymbolFunc;
use frisbee::types::Type;

fn module() -> ModuleAlias {
    ModuleAlias::new(&["main".to_string()])
}

fn function(name: &str, body: Vec<VStatement>) -> RawFunction {
    RawFunction {
        name: SymbolFunc::new(&module(), name),
        return_type: Type::Int,
        args: TypedFields { types: vec![], names: vec![] },
        body,
        locals: vec![],
        short_name: name.to_string(),
        method_of: None,
        is_constructor: false,
        defined_at: module(),
    }
}

fn int_expr(i: i64) -> VExprTyped {
    VExprTyped { expr: VExpr::Int(i), expr_type: Type::Int }
}

#[test]
fn generated_program_loads_back() {
    let text = VExprTyped { expr: VExpr::String("hi".to_string()), expr_type: Type::String };
    let main = function("main", vec![VStatement::Expression(text), VStatement::Return(int_expr(42))]);
    let bytes = generate(&[], &[main], &SymbolFunc::new(&module(), "main")).expect("program assembles");
    let vm = Vm::setup(bytes.clone()).expect("generated program loads");
    assert_eq!(vm.constants.len(), 1);
    assert!(disassemble_bytecode(&bytes).is_some());
}

#[test]
fn generation_refuses_missing_functions() {
    let main = function("main", vec![VStatement::Return(int_expr(1))]);
    assert!(generate(&[], &[main], &SymbolFunc::new(&module(), "start")).is_none());

    let call = VExprTyped {
        expr: VExpr::CallFunction { name: SymbolFunc::new(&module(), "g"), return_type: Type::Int, args: vec![] },
        expr_type: Type::Int,
    };
    let caller = function("main", vec![VStatement::Return(call)]);
    assert!(generate(&[], &[caller], &SymbolFunc::new(&module(), "main")).is_none());
}
