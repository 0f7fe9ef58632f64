use frisbee::alias::ModuleAlias;
use frisbee::loader::{parse_contents, FrisbeeModule, WholeProgram};
use frisbee::semantic_checker::modules::program_symbols;
use frisbee::semantic_checker::resolvers::NameResolver;

fn program(files: &[(&str, &str)]) -> WholeProgram {
    let modules = files
        .iter()
        .map(|(name, text)| FrisbeeModule {
            alias: ModuleAlias::new(&[name.to_string()]),
            contents: text.to_string(),
            ast: parse_contents(text).ok().expect("file should parse"),
        })
        .collect();
    WholeProgram { main_module: ModuleAlias::new(&["main".to_string()]), modules }
}

fn resolve(files: &[(&str, &str)]) -> Result<NameResolver, String> {
    NameResolver::for_program(&program(files))
}

#[test]
fn tests_resolvers_check_import_from_same_module_is_fine() {
    let r = resolve(&[
        ("main", "from mod import somefun;\nfrom mod import Type;\n"),
        ("mod", "fun Nil somefun() {}\nclass Type {}\n"),
    ]);
    assert!(r.is_ok());
}

#[test]
fn tests_resolvers_check_import_of_same_function_are_not_allowed() {
    let r = resolve(&[
        ("main", "from mod import somefun;\nfrom mod import somefun;\n"),
        ("mod", "fun Nil somefun() {}\n"),
    ]);
    assert_eq!(r.err(), Some("Function somefun defined twice in main".to_string()));
}

#[test]
fn tests_resolvers_check_import_function_name_collision() {
    let r = resolve(&[
        ("main", "from mod import somefun;\n\nfun Nil somefun() {}\n"),
        ("mod", "fun Bool somefun() {}\n"),
    ]);
    assert_eq!(r.err(), Some("Function somefun defined twice in main".to_string()));
}

#[test]
fn tests_resolvers_check_import_active_type_name_collision() {
    let r = resolve(&[("main", "from mod import Type;\n\nactive Type {}\n"), ("mod", "// empty file\n")]);
    assert_eq!(r.err(), Some("Type Type is not defined in mod".to_string()));
}

#[test]
fn tests_resolvers_check_active_and_class_name_collision() {
    let r = resolve(&[("main", "class Type {}\nactive Type {}\n")]);
    assert_eq!(r.err(), Some("Type Type defined twice in main".to_string()));
}

#[test]
fn tests_resolvers_check_method_name_collisions() {
    let r = resolve(&[("main", "class Type {\n    fun Nil hello() {}\n    fun Nil hello() {}\n}\n")]);
    assert_eq!(r.err(), Some("Method hello defined twice in Type".to_string()));
}

#[test]
fn tests_resolvers_check_same_function_names_are_fine() {
    let r = resolve(&[
        ("main", "from mod import hello, Person;\n\nfun Nil samename(Person someone) {}\n"),
        ("mod", "fun Person samename() {}\nfun Nil hello() {}\n\nclass Person {}\n"),
    ]);
    assert!(r.is_ok());
}

#[test]
fn tests_resolvers_check_no_self_referrings_in_imports() {
    let r = resolve(&[("main", "from main import Type;\n")]);
    assert_eq!(r.err(), Some("Type Type is not defined in main".to_string()));
}

#[test]
fn tests_resolvers_check_imported_types_are_existing() {
    let r = resolve(&[("main", "from module import X1;\n"), ("module", "class X {}\n")]);
    assert_eq!(r.err(), Some("Type X1 is not defined in module".to_string()));
}

#[test]
fn tests_resolvers_check_imported_functions_are_existing() {
    let r = resolve(&[("main", "from module import func;\n"), ("module", "// empty file\n")]);
    assert_eq!(r.err(), Some("Function func is not defined in module".to_string()));
}

#[test]
fn a_self_import_of_defined_names_is_refused_by_the_resolver() {
    let r = resolve(&[("main", "from main import Type;\nclass Type {}\n")]);
    assert_eq!(r.err(), Some("Module \"main\" is importing itself!".to_string()));
}

#[test]
fn file_symbols_list_own_names_then_imported_ones() {
    let wp = program(&[
        ("main", "from mod import hello, Person;\n\nfun Nil samename(Person someone) {}\n"),
        ("mod", "fun Person samename() {}\nfun Nil hello() {}\n\nclass Person {}\n"),
    ]);
    let files = program_symbols(&wp).ok().unwrap();
    assert_eq!(files.len(), 2);
    let main = &files[0];
    let names = |v: &Vec<(ModuleAlias, String)>| -> Vec<(String, String)> {
        v.iter().map(|(m, n)| (m.as_string(), n.clone())).collect()
    };
    assert_eq!(
        names(&main.functions),
        vec![("main".to_string(), "samename".to_string()), ("mod".to_string(), "hello".to_string())]
    );
    assert_eq!(names(&main.typenames), vec![("mod".to_string(), "Person".to_string())]);
    assert_eq!(main.imports.len(), 1);
    assert_eq!(main.imports[0].as_string(), "mod");
    assert_eq!(
        names(&files[1].typenames),
        vec![("mod".to_string(), "Person".to_string())]
    );
}
