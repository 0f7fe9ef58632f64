use frisbee::alias::ModuleAlias;
use frisbee::codegen::expressions::match_std_function;
use frisbee::runtime::stdlib_runners::std_runners;
use frisbee::symbols::SymbolFunc;

fn std_symbols() -> Vec<SymbolFunc> {
    let std = ModuleAlias::std_module();
    let mut symbols: Vec<SymbolFunc> = ["print", "println", "range"]
        .iter()
        .map(|f| SymbolFunc::new(&std, f))
        .collect();
    let methods: [(&str, &[&str]); 5] = [
        ("Bool", &["to_string"]),
        ("Int", &["to_string"]),
        ("Float", &["to_string"]),
        ("String", &[]),
        ("List", &["push", "size"]),
    ];
    for (typename, names) in methods {
        for name in names {
            symbols.push(SymbolFunc::new(&std, &format!("{}::{}", typename, name)));
        }
    }
    symbols
}

#[test]
fn check_that_all_std_functions_are_there() {
    let mut std_symbols = std_symbols();
    let mut std_runner_names: Vec<String> = std_runners().iter().map(|s| String::from(*s)).collect();

    std_runner_names.sort();
    std_symbols.sort_by_key(|s| s.text().iter().collect::<String>());

    assert_eq!(std_runner_names.len(), std_symbols.len());
    for (runner_name, symbol) in std_runner_names.iter().zip(std_symbols.iter()) {
        assert!(symbol.is_eq_to_str(runner_name));
    }
}

#[test]
fn each_std_symbol_finds_its_runner() {
    let runners = std_runners();
    for symbol in std_symbols() {
        let index = match_std_function(&symbol) as usize;
        assert!(symbol.is_eq_to_str(runners[index]));
    }
}
