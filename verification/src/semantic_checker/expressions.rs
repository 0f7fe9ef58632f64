//! Typing of expressions against the symbols of a program.
use vstd::prelude::*;

use crate::alias::ModuleAlias;
use crate::ast::{sem_of, binary_op_text, type_text, types_text, BinaryOp, SemType, Type, UnaryOp};
use crate::semantic_checker::operators::{
    are_types_same_or_maybe, binaryop_result, calculate_binaryop_type, calculate_unaryop_type, same_or_maybe, unaryop_result,
};
use crate::semantic_checker::std_definitions::{get_std_method, has_std_methods, missing_method_message, std_methods};
use crate::semantic_checker::expr_text::{expr_debug, expr_text, exprs_debug, exprs_text};
use crate::text::decimal_of_nat;
use crate::semantic_checker::symbols::{
    classes_model, files_model, functions_model, lookup, named_types, ClassModel, FileModel, GlobalSymbolsInfo,
    OriginModel, SignatureModel, SymbolOriginsPerFile, ClassSignature, FunctionSignature,
    find_file, find_origin, find_last_named, lemma_lookup_found,
};

verus! {

/// An expression as the parser produces it, before annotation. Float
/// literals are held as the bit pattern of their IEEE-754 double value.
#[derive(Debug)]
pub enum ExprRaw {
    Int(i64),
    String(String),
    Bool(bool),
    Nil,
    Float(u64),
    This,
    Identifier(String),
    UnaryOp { op: UnaryOp, operand: Box<ExprRaw> },
    BinOp { left: Box<ExprRaw>, right: Box<ExprRaw>, op: BinaryOp },
    ListAccess { list: Box<ExprRaw>, index: Box<ExprRaw> },
    ListValue(Vec<ExprRaw>),
    TupleValue(Vec<ExprRaw>),
    FunctionCall { function: String, args: Vec<ExprRaw> },
    MethodCall { object: Box<ExprRaw>, method: String, args: Vec<ExprRaw> },
    FieldAccess { object: Box<ExprRaw>, field: String },
    OwnMethodCall { method: String, args: Vec<ExprRaw> },
    OwnFieldAccess { field: String },
    NewClassInstance { typename: String, args: Vec<ExprRaw> },
    SpawnActive { typename: String, args: Vec<ExprRaw> },
}

/// What the checker knows: the symbols of every file, the class and
/// function signatures, the file being checked, the class whose method is
/// being checked (if any), and the variables in scope with their types.
pub ghost struct CheckerModel {
    pub files: Seq<(Seq<char>, FileModel)>,
    pub classes: Seq<(OriginModel, ClassModel)>,
    pub functions: Seq<(OriginModel, SignatureModel)>,
    pub file: Seq<char>,
    pub scope: Option<Seq<char>>,
    pub vars: Seq<(Seq<char>, SemType)>,
}

/// The outcome of typing an expression: its type; an error with its
/// message; or a state the checks do not handle (a symbol table without the
/// entries that symbol collection guarantees, or a type that has no method
/// table).
pub ghost enum Outcome {
    Typed(SemType),
    Failed(Seq<char>),
    Stuck,
}

/// The outcome of typing a sequence of expressions: all their types, or the
/// outcome of the first one that is not typed.
pub ghost enum SeqOutcome {
    All(Seq<SemType>),
    Stop(Outcome),
}

/// `In file <file>: `, the prefix of many messages.
pub open spec fn err_prefix(env: CheckerModel) -> Seq<char> {
    "In file "@ + env.file + ": "@
}

/// The signature of the class `typename` as seen from the checked file.
pub open spec fn class_signature(env: CheckerModel, typename: Seq<char>) -> Result<ClassModel, Outcome> {
    match lookup(env.files, env.file) {
        None => Err(Outcome::Stuck),
        Some(f) => match lookup(f.0, typename) {
            None => Err(Outcome::Failed(err_prefix(env) + " Type "@ + typename + " not found"@)),
            Some(origin) => match lookup(env.classes, origin) {
                None => Err(Outcome::Stuck),
                Some(c) => Ok(c),
            },
        },
    }
}

/// The signature of the function `name` as seen from the checked file.
pub open spec fn function_signature(env: CheckerModel, name: Seq<char>) -> Result<SignatureModel, Outcome> {
    match lookup(env.files, env.file) {
        None => Err(Outcome::Stuck),
        Some(f) => match lookup(f.1, name) {
            None => Err(Outcome::Failed(err_prefix(env) + " Function "@ + name + " not found"@)),
            Some(origin) => match lookup(env.functions, origin) {
                None => Err(Outcome::Stuck),
                Some(s) => Ok(s),
            },
        },
    }
}

/// The signature of the method `method` of the class `name` of module `module`.
pub open spec fn type_method(env: CheckerModel, module: Seq<char>, name: Seq<char>, method: Seq<char>) -> Result<SignatureModel, Outcome> {
    match lookup(env.classes, (module, name)) {
        None => Err(Outcome::Stuck),
        Some(c) => match lookup(c.2, method) {
            None => Err(Outcome::Failed(err_prefix(env) + " "@ + method + " not found"@)),
            Some(s) => Ok(s),
        },
    }
}

/// The type of the field `field` of the class `name` of module `module`.
pub open spec fn type_field(env: CheckerModel, module: Seq<char>, name: Seq<char>, field: Seq<char>) -> Outcome {
    match lookup(env.classes, (module, name)) {
        None => Outcome::Stuck,
        Some(c) => match lookup(c.1, field) {
            None => Outcome::Failed(err_prefix(env) + " "@ + field + " not found"@),
            Some(t) => Outcome::Typed(t),
        },
    }
}

/// Two neighbouring types of `ts` differ.
pub open spec fn has_mismatch(ts: Seq<SemType>) -> bool {
    exists|k: int| 0 <= k < ts.len() - 1 && #[trigger] ts[k] != ts[k + 1]
}

/// The type of `e`.
pub open spec fn calc(env: CheckerModel, e: ExprRaw) -> Outcome
    decreases e, 2nat,
{
    match e {
        ExprRaw::Int(_) => Outcome::Typed(SemType::Int),
        ExprRaw::String(_) => Outcome::Typed(SemType::String),
        ExprRaw::Bool(_) => Outcome::Typed(SemType::Bool),
        ExprRaw::Nil => Outcome::Typed(SemType::Nil),
        ExprRaw::Float(_) => Outcome::Typed(SemType::Float),
        ExprRaw::Identifier(id) => match lookup(env.vars, id@) {
            Some(t) => Outcome::Typed(t),
            None => Outcome::Failed(err_prefix(env) + " unknown variable "@ + id@),
        },
        ExprRaw::TupleValue(items) => match calc_vec(env, items@) {
            SeqOutcome::All(ts) => Outcome::Typed(SemType::Tuple(ts)),
            SeqOutcome::Stop(o) => o,
        },
        ExprRaw::ListValue(items) => if items@.len() == 0 {
            Outcome::Typed(SemType::List(Box::new(SemType::Anonymous)))
        } else {
            match calc_vec(env, items@) {
                SeqOutcome::All(ts) => if has_mismatch(ts) {
                    Outcome::Failed(err_prefix(env) + " list items have different types: ["@ + types_text(ts) + "]"@)
                } else {
                    Outcome::Typed(SemType::List(Box::new(ts[0])))
                },
                SeqOutcome::Stop(o) => o,
            }
        },
        ExprRaw::UnaryOp { op, operand } => match calc(env, *operand) {
            Outcome::Typed(t) => match unaryop_result(op, t) {
                Ok(r) => Outcome::Typed(r),
                Err(m) => Outcome::Failed(m),
            },
            o => o,
        },
        ExprRaw::BinOp { left, right, op } => match calc(env, *left) {
            Outcome::Typed(l) => match calc(env, *right) {
                Outcome::Typed(r) => match binaryop_result(op, l, r) {
                    Ok(t) => Outcome::Typed(t),
                    Err(m) => Outcome::Failed(m),
                },
                o => o,
            },
            o => o,
        },
        ExprRaw::ListAccess { list, index } => match calc(env, *list) {
            Outcome::Typed(lt) => match lt {
                SemType::List(item) => match calc(env, *index) {
                    Outcome::Typed(it) => if it is Int {
                        Outcome::Typed(*item)
                    } else {
                        Outcome::Failed("List index must be int, but got "@ + type_text(it) + " in "@ + expr_text(*index))
                    },
                    o => o,
                },
                SemType::Tuple(items) => match *index {
                    ExprRaw::Int(i) => if (i as usize) < items.len() {
                        Outcome::Typed(items[(i as usize) as int])
                    } else {
                        Outcome::Failed(err_prefix(env) + " Out of bounds index in "@ + expr_text(*list))
                    },
                    _ => Outcome::Failed("Not int for tuple access in "@ + expr_text(*list)),
                },
                _ => Outcome::Failed("Expected tuple or list for index access, got "@ + type_text(lt) + " in "@ + expr_text(*list)),
            },
            o => o,
        },
        ExprRaw::NewClassInstance { typename, args } => match class_signature(env, typename@) {
            Err(o) => o,
            Ok(c) => if c.0 {
                Outcome::Failed(err_prefix(env) + " You must call spawn for "@ + typename@)
            } else {
                match lookup(c.2, typename@) {
                    None => Outcome::Stuck,
                    Some(sig) => check_call(env, sig, args@),
                }
            },
        },
        ExprRaw::SpawnActive { typename, args } => match class_signature(env, typename@) {
            Err(o) => o,
            Ok(c) => if !c.0 {
                Outcome::Failed(err_prefix(env) + " Cant spawn passive "@ + typename@ + "!"@)
            } else {
                match lookup(c.2, typename@) {
                    None => Outcome::Stuck,
                    Some(sig) => check_call(env, sig, args@),
                }
            },
        },
        ExprRaw::FunctionCall { function, args } => match function_signature(env, function@) {
            Err(o) => o,
            Ok(sig) => check_call(env, sig, args@),
        },
        ExprRaw::MethodCall { object, method, args } => match calc(env, *object) {
            Outcome::Typed(t) => match t {
                SemType::IdentQualified(module, name) => match type_method(env, module, name, method@) {
                    Ok(sig) => check_call(env, sig, args@),
                    Err(o) => o,
                },
                SemType::Ident(_) => Outcome::Stuck,
                SemType::Maybe(_) => Outcome::Stuck,
                t => if has_std_methods(t) {
                    match lookup(std_methods(t), method@) {
                        Some(sig) => check_call(env, sig, args@),
                        None => Outcome::Failed(missing_method_message(method@, t)),
                    }
                } else {
                    Outcome::Stuck
                },
            },
            o => o,
        },
        ExprRaw::FieldAccess { object, field } => match calc(env, *object) {
            Outcome::Typed(t) => match t {
                SemType::IdentQualified(module, name) => type_field(env, module, name, field@),
                SemType::Ident(_) => Outcome::Stuck,
                _ => Outcome::Failed("Error at "@ + expr_text(*object) + " - type "@ + type_text(t) + " has no fields"@),
            },
            o => o,
        },
        ExprRaw::OwnMethodCall { method, args } => match env.scope {
            None => Outcome::Failed(err_prefix(env) + " Using @ is not allowed in functions"@),
            Some(scope) => match type_method(env, env.file, scope, method@) {
                Ok(sig) => check_call(env, sig, args@),
                Err(o) => o,
            },
        },
        ExprRaw::OwnFieldAccess { field } => match env.scope {
            None => Outcome::Failed(err_prefix(env) + " Using @ is not allowed in functions"@),
            Some(scope) => type_field(env, env.file, scope, field@),
        },
        ExprRaw::This => match env.scope {
            None => Outcome::Failed("Using 'this' in the functions is not allowed!"@),
            Some(scope) => Outcome::Typed(SemType::IdentQualified(env.file, scope)),
        },
    }
}

/// The types of `es`, in order, up to the first one that is not typed.
pub open spec fn calc_vec(env: CheckerModel, es: Seq<ExprRaw>) -> SeqOutcome
    decreases es, 1nat,
{
    if es.len() == 0 {
        SeqOutcome::All(Seq::empty())
    } else {
        match calc_vec(env, es.drop_last()) {
            SeqOutcome::All(ts) => match calc(env, es.last()) {
                Outcome::Typed(t) => SeqOutcome::All(ts.push(t)),
                o => SeqOutcome::Stop(o),
            },
            SeqOutcome::Stop(o) => SeqOutcome::Stop(o),
        }
    }
}

/// A call with arguments `args` of a function with signature `sig`: its
/// return type when there are as many arguments as parameters and each
/// argument's type is the parameter's or fits it as a maybe-value.
pub open spec fn check_call(env: CheckerModel, sig: SignatureModel, args: Seq<ExprRaw>) -> Outcome
    decreases args, 1nat,
{
    if args.len() != sig.1.len() {
        Outcome::Failed(err_prefix(env) + " Wrong amount of arguments at "@ + exprs_text(args) + ", expected "@
            + decimal_of_nat(sig.1.len()))
    } else {
        match check_args(env, sig.1, args) {
            None => Outcome::Typed(sig.0),
            Some(o) => o,
        }
    }
}

/// The message for an argument of type `t` that does not fit `param`.
pub open spec fn wrong_argument_message(param: (Seq<char>, SemType), t: SemType, arg: ExprRaw) -> Seq<char> {
    "Wrong type for argument "@ + param.0 + ", expected "@ + type_text(param.1) + ", got "@ + type_text(t) + " ("@
        + expr_text(arg) + ")"@
}

/// The first argument (in order) that is not typed or does not fit its
/// parameter, as an outcome; none when all fit.
pub open spec fn check_args(env: CheckerModel, params: Seq<(Seq<char>, SemType)>, args: Seq<ExprRaw>) -> Option<Outcome>
    decreases args, 0nat,
{
    if args.len() == 0 {
        None
    } else {
        match check_args(env, params.drop_last(), args.drop_last()) {
            Some(o) => Some(o),
            None => match calc(env, args.last()) {
                Outcome::Typed(t) => if same_or_maybe(params.last().1, t) {
                    None
                } else {
                    Some(Outcome::Failed(wrong_argument_message(params.last(), t, args.last())))
                },
                o => Some(o),
            },
        }
    }
}

} // verus!

verus! {

/// Checks the types of expressions of one file, inside one class's methods
/// (`scope`) or in free functions, with the variables declared so far.
pub struct ExprTypeChecker<'a> {
    symbols_info: &'a GlobalSymbolsInfo,
    file_name: ModuleAlias,
    scope: Option<String>,
    variables_types: Vec<(String, Type)>,
}

/// The checker's model built from its parts.
pub open spec fn checker_model(
    symbols_info: GlobalSymbolsInfo,
    file: Seq<char>,
    scope: Option<Seq<char>>,
    vars: Seq<(Seq<char>, SemType)>,
) -> CheckerModel {
    CheckerModel {
        files: files_model(symbols_info.symbols_per_file@),
        classes: classes_model(symbols_info.global_signatures.typenames@),
        functions: functions_model(symbols_info.global_signatures.functions@),
        file,
        scope,
        vars,
    }
}

/// An optional name as text.
pub open spec fn opt_text(o: Option<String>) -> Option<Seq<char>> {
    match o {
        Some(s) => Some(s@),
        None => None,
    }
}

impl<'a> View for ExprTypeChecker<'a> {
    type V = CheckerModel;

    closed spec fn view(&self) -> CheckerModel {
        checker_model(*self.symbols_info, self.file_name@, opt_text(self.scope), named_types(self.variables_types@))
    }
}

/// The result matches the outcome: the type, or an error (with the stated
/// message where the outcome states one).
pub open spec fn outcome_matches(r: Result<Type, String>, o: Outcome) -> bool {
    match o {
        Outcome::Typed(t) => r matches Ok(x) && x@ == t,
        Outcome::Failed(m) => r matches Err(e) && e@ == m,
        Outcome::Stuck => false,
    }
}

/// Once a prefix of the expressions stops, every longer prefix stops the same way.
proof fn lemma_calc_vec_stop(env: CheckerModel, es: Seq<ExprRaw>, i: int, j: int)
    requires
        0 <= i <= j <= es.len(),
        calc_vec(env, es.take(i)) is Stop,
    ensures
        calc_vec(env, es.take(j)) == calc_vec(env, es.take(i)),
    decreases j - i,
{
    if j > i {
        lemma_calc_vec_stop(env, es, i, j - 1);
        assert(es.take(j).drop_last() =~= es.take(j - 1));
    }
}

/// Once a prefix of the arguments has a failing one, every longer prefix
/// reports the same.
proof fn lemma_check_args_stop(
    env: CheckerModel,
    params: Seq<(Seq<char>, SemType)>,
    args: Seq<ExprRaw>,
    i: int,
    j: int,
)
    requires
        0 <= i <= j <= args.len(),
        params.len() == args.len(),
        check_args(env, params.take(i), args.take(i)) is Some,
    ensures
        check_args(env, params.take(j), args.take(j)) == check_args(env, params.take(i), args.take(i)),
    decreases j - i,
{
    if j > i {
        lemma_check_args_stop(env, params, args, i, j - 1);
        assert(params.take(j).drop_last() =~= params.take(j - 1));
        assert(args.take(j).drop_last() =~= args.take(j - 1));
    }
}

/// Whether two neighbouring types of `types` differ.
fn has_different_neighbours(types: &Vec<Type>) -> (r: bool)
    ensures
        r == has_mismatch(crate::ast::sems_of(types@)),
{
    let ghost ts = crate::ast::sems_of(types@);
    let mut k: usize = 1;
    while k < types.len()
        invariant
            1 <= k,
            k <= types@.len() || types@.len() == 0,
            ts == crate::ast::sems_of(types@),
            forall|j: int| 0 <= j < k - 1 && j < ts.len() - 1 ==> #[trigger] ts[j] == ts[j + 1],
        decreases types@.len() - k,
    {
        if !types[k - 1].same_as(&types[k]) {
            assert(ts[k - 1] != ts[k as int]);
            return true;
        }
        k = k + 1;
    }
    false
}

fn push_text(out: &mut Vec<char>, s: &str)
    ensures
        final(out)@ == old(out)@ + s@,
{
    let cs = crate::text::chars_of(s);
    crate::text::extend_chars(out, cs.as_slice());
}

fn finish(m: Vec<char>) -> (r: String)
    ensures
        r@ == m@,
{
    crate::text::string_from_chars(m.as_slice())
}

impl<'a> ExprTypeChecker<'a> {
    /// A checker for `file_name` with no variables declared yet.
    pub fn new(symbols_info: &'a GlobalSymbolsInfo, file_name: ModuleAlias, scope: Option<String>) -> (r: ExprTypeChecker<'a>)
        ensures
            r@ == checker_model(*symbols_info, file_name@, opt_text(scope), Seq::empty()),
    {
        let r = ExprTypeChecker { symbols_info, file_name, scope, variables_types: Vec::new() };
        assert(named_types(r.variables_types@) =~= Seq::<(Seq<char>, SemType)>::empty());
        r
    }

    /// Declares the variable `name` of type `t`; declaring a name again is
    /// an error, though the new type replaces the old one.
    pub fn add_variable(&mut self, name: String, t: Type) -> (r: Result<(), String>)
        ensures
            final(self)@ == (CheckerModel { vars: old(self)@.vars.push((name@, t@)), ..old(self)@ }),
            (r is Err) <==> (lookup(old(self)@.vars, name@) is Some),
            r matches Err(e) ==> e@ == "Variable "@ + name@ + " already declared"@,
    {
        let ghost vars = named_types(self.variables_types@);
        let prev = crate::semantic_checker::symbols::find_last_named(&self.variables_types, name.as_str());
        proof {
            match prev {
                Some(k) => {
                    assert(vars[k as int].0 == name@);
                    crate::semantic_checker::symbols::lemma_lookup_at(vars, name@, k as int);
                },
                None => {
                    crate::semantic_checker::symbols::lemma_lookup_none(vars, name@);
                },
            }
        }
        let mut message: Vec<char> = Vec::new();
        push_text(&mut message, "Variable ");
        push_text(&mut message, name.as_str());
        push_text(&mut message, " already declared");
        self.variables_types.push((name, t));
        assert(named_types(self.variables_types@) =~= vars.push((name@, t@)));
        match prev {
            Some(_) => Err(finish(message)),
            None => Ok(()),
        }
    }

    /// Forgets all declared variables.
    pub fn reset_variables(&mut self)
        ensures
            final(self)@ == (CheckerModel { vars: Seq::empty(), ..old(self)@ }),
    {
        self.variables_types = Vec::new();
        assert(named_types(self.variables_types@) =~= Seq::<(Seq<char>, SemType)>::empty());
    }

    /// `In file <file>: `.
    fn err_prefix(&self) -> (r: Vec<char>)
        ensures
            r@ == err_prefix(self@),
    {
        let mut m: Vec<char> = Vec::new();
        push_text(&mut m, "In file ");
        let f = self.file_name.as_string();
        push_text(&mut m, f.as_str());
        push_text(&mut m, ": ");
        m
    }

    /// The symbols visible in the checked file.
    fn get_symbols_per_file(&self) -> (r: Option<&SymbolOriginsPerFile>)
        ensures
            match lookup(self@.files, self@.file) {
                Some(f) => r matches Some(x) && x@ == f,
                None => r is None,
            },
    {
        let entries = &self.symbols_info.symbols_per_file;
        let found = find_file(entries, &self.file_name);
        proof {
            let m = files_model(entries@);
            assert forall|j: int| 0 <= j < m.len() implies (#[trigger] m[j]) == (entries@[j].0@, entries@[j].1@) by {}
            lemma_lookup_found(m, self.file_name@, found);
        }
        match found {
            Some(k) => Some(&entries[k].1),
            None => None,
        }
    }

    /// The signature of the class `typename` as seen from the checked file.
    fn get_class_signature(&self, typename: &String) -> (r: Result<&ClassSignature, String>)
        requires
            class_signature(self@, typename@) != Err::<ClassModel, Outcome>(Outcome::Stuck),
        ensures
            match class_signature(self@, typename@) {
                Ok(c) => r matches Ok(x) && x@ == c,
                Err(o) => r matches Err(e) && o == Outcome::Failed(e@),
            },
    {
        let symbols = match self.get_symbols_per_file() {
            Some(symbols) => symbols,
            None => {
                return Err(String::new());
            },
        };
        let found = find_last_named(&symbols.typenames, typename.as_str());
        proof {
            let m = symbols@.0;
            assert forall|j: int| 0 <= j < m.len() implies (#[trigger] m[j]) == (
                symbols.typenames@[j].0@,
                symbols.typenames@[j].1@,
            ) by {}
            lemma_lookup_found(m, typename@, found);
        }
        match found {
            None => {
                let mut m = self.err_prefix();
                push_text(&mut m, " Type ");
                push_text(&mut m, typename.as_str());
                push_text(&mut m, " not found");
                Err(finish(m))
            },
            Some(k) => {
                let origin = &symbols.typenames[k].1;
                let classes = &self.symbols_info.global_signatures.typenames;
                let at = find_origin(classes, &origin.module, origin.name.as_str());
                proof {
                    let m = classes_model(classes@);
                    assert forall|j: int| 0 <= j < m.len() implies (#[trigger] m[j]) == (classes@[j].0@, classes@[j].1@) by {}
                    lemma_lookup_found(m, origin@, at);
                }
                match at {
                    Some(i) => Ok(&classes[i].1),
                    None => Err(String::new()),
                }
            },
        }
    }

    /// The signature of the function `name` as seen from the checked file.
    fn get_function_signature(&self, name: &String) -> (r: Result<&FunctionSignature, String>)
        requires
            function_signature(self@, name@) != Err::<SignatureModel, Outcome>(Outcome::Stuck),
        ensures
            match function_signature(self@, name@) {
                Ok(sig) => r matches Ok(x) && x@ == sig,
                Err(o) => r matches Err(e) && o == Outcome::Failed(e@),
            },
    {
        let symbols = match self.get_symbols_per_file() {
            Some(symbols) => symbols,
            None => {
                return Err(String::new());
            },
        };
        let found = find_last_named(&symbols.functions, name.as_str());
        proof {
            let m = symbols@.1;
            assert forall|j: int| 0 <= j < m.len() implies (#[trigger] m[j]) == (
                symbols.functions@[j].0@,
                symbols.functions@[j].1@,
            ) by {}
            lemma_lookup_found(m, name@, found);
        }
        match found {
            None => {
                let mut m = self.err_prefix();
                push_text(&mut m, " Function ");
                push_text(&mut m, name.as_str());
                push_text(&mut m, " not found");
                Err(finish(m))
            },
            Some(k) => {
                let origin = &symbols.functions[k].1;
                let functions = &self.symbols_info.global_signatures.functions;
                let at = find_origin(functions, &origin.module, origin.name.as_str());
                proof {
                    let m = functions_model(functions@);
                    assert forall|j: int| 0 <= j < m.len() implies (#[trigger] m[j]) == (
                        functions@[j].0@,
                        functions@[j].1@,
                    ) by {}
                    lemma_lookup_found(m, origin@, at);
                }
                match at {
                    Some(i) => Ok(&functions[i].1),
                    None => Err(String::new()),
                }
            },
        }
    }

    /// The signature of the class `name` of `module`, which symbol
    /// collection guarantees to exist.
    fn get_class_by_origin(&self, module: &ModuleAlias, name: &String) -> (r: Option<&ClassSignature>)
        ensures
            match lookup(self@.classes, (module@, name@)) {
                Some(c) => r matches Some(x) && x@ == c,
                None => r is None,
            },
    {
        let classes = &self.symbols_info.global_signatures.typenames;
        let at = find_origin(classes, module, name.as_str());
        proof {
            let m = classes_model(classes@);
            assert forall|j: int| 0 <= j < m.len() implies (#[trigger] m[j]) == (classes@[j].0@, classes@[j].1@) by {}
            lemma_lookup_found(m, (module@, name@), at);
        }
        match at {
            Some(i) => Some(&classes[i].1),
            None => None,
        }
    }

    /// `In file <file>:  <name> not found`.
    fn not_found(&self, name: &String) -> (r: String)
        ensures
            r@ == err_prefix(self@) + " "@ + name@ + " not found"@,
    {
        let mut m = self.err_prefix();
        push_text(&mut m, " ");
        push_text(&mut m, name.as_str());
        push_text(&mut m, " not found");
        finish(m)
    }

    /// The signature of the method `method` of the class `name` of `module`.
    fn get_type_method(&self, module: &ModuleAlias, name: &String, method: &String) -> (r: Result<&FunctionSignature, String>)
        requires
            type_method(self@, module@, name@, method@) != Err::<SignatureModel, Outcome>(Outcome::Stuck),
        ensures
            match type_method(self@, module@, name@, method@) {
                Ok(sig) => r matches Ok(x) && x@ == sig,
                Err(o) => r matches Err(e) && o == Outcome::Failed(e@),
            },
    {
        let class_signature = match self.get_class_by_origin(module, name) {
            Some(c) => c,
            None => {
                return Err(String::new());
            },
        };
        let found = find_last_named(&class_signature.methods, method.as_str());
        proof {
            let m = class_signature@.2;
            assert forall|j: int| 0 <= j < m.len() implies (#[trigger] m[j]) == (
                class_signature.methods@[j].0@,
                class_signature.methods@[j].1@,
            ) by {}
            lemma_lookup_found(m, method@, found);
        }
        match found {
            Some(k) => Ok(&class_signature.methods[k].1),
            None => Err(self.not_found(method)),
        }
    }

    /// The type of the field `field` of the class `name` of `module`.
    fn get_type_field(&self, module: &ModuleAlias, name: &String, field: &String) -> (r: Result<&Type, String>)
        requires
            type_field(self@, module@, name@, field@) != Outcome::Stuck,
        ensures
            match type_field(self@, module@, name@, field@) {
                Outcome::Typed(t) => r matches Ok(x) && x@ == t,
                Outcome::Failed(m) => r matches Err(e) && e@ == m,
                Outcome::Stuck => false,
            },
    {
        let class_signature = match self.get_class_by_origin(module, name) {
            Some(c) => c,
            None => {
                return Err(String::new());
            },
        };
        let found = find_last_named(&class_signature.fields, field.as_str());
        proof {
            let m = class_signature@.1;
            assert forall|j: int| 0 <= j < m.len() implies (#[trigger] m[j]) == (
                class_signature.fields@[j].0@,
                class_signature.fields@[j].1@,
            ) by {}
            lemma_lookup_found(m, field@, found);
        }
        match found {
            Some(k) => Ok(&class_signature.fields[k].1),
            None => Err(self.not_found(field)),
        }
    }

    /// The type of `expr`.
    pub fn calculate(&self, expr: &ExprRaw) -> (r: Result<Type, String>)
        requires
            calc(self@, *expr) != Outcome::Stuck,
        ensures
            outcome_matches(r, calc(self@, *expr)),
        decreases *expr, 2nat,
    {
        match expr {
            ExprRaw::Int(_) => Ok(Type::Int),
            ExprRaw::String(_) => Ok(Type::String),
            ExprRaw::Bool(_) => Ok(Type::Bool),
            ExprRaw::Nil => Ok(Type::Nil),
            ExprRaw::Float(_) => Ok(Type::Float),
            ExprRaw::Identifier(identifier) => {
                let found = find_last_named(&self.variables_types, identifier.as_str());
                proof {
                    let m = named_types(self.variables_types@);
                    assert forall|j: int| 0 <= j < m.len() implies (#[trigger] m[j]) == (
                        self.variables_types@[j].0@,
                        self.variables_types@[j].1@,
                    ) by {}
                    lemma_lookup_found(m, identifier@, found);
                }
                match found {
                    Some(k) => Ok(self.variables_types[k].1.duplicate()),
                    None => {
                        let mut m = self.err_prefix();
                        push_text(&mut m, " unknown variable ");
                        push_text(&mut m, identifier.as_str());
                        Err(finish(m))
                    },
                }
            },
            ExprRaw::TupleValue(items) => match self.calculate_vec(items) {
                Ok(types) => {
                    proof {
                        crate::ast::lemma_sem_tuple(types);
                    }
                    Ok(Type::Tuple(types))
                },
                Err(e) => Err(e),
            },
            ExprRaw::ListValue(_) => self.calculate_list_value(expr),
            ExprRaw::UnaryOp { op, operand } => match self.calculate(operand) {
                Ok(t) => calculate_unaryop_type(op, &t),
                Err(e) => Err(e),
            },
            ExprRaw::BinOp { left, right, op } => match self.calculate(left) {
                Ok(l) => match self.calculate(right) {
                    Ok(r) => calculate_binaryop_type(op, &l, &r),
                    Err(e) => Err(e),
                },
                Err(e) => Err(e),
            },
            ExprRaw::ListAccess { .. } => self.calculate_access_by_index(expr),
            ExprRaw::NewClassInstance { .. } => self.calculate_new_instance(expr),
            ExprRaw::SpawnActive { .. } => self.calculate_new_instance(expr),
            ExprRaw::FunctionCall { function, args } => match self.get_function_signature(function) {
                Ok(signature) => self.check_function_call(signature, args),
                Err(e) => Err(e),
            },
            ExprRaw::MethodCall { .. } => self.calculate_method_call(expr),
            ExprRaw::FieldAccess { .. } => self.calculate_field_access(expr),
            ExprRaw::OwnMethodCall { method, args } => match &self.scope {
                None => Err(self.own_access_error()),
                Some(scope) => match self.get_type_method(&self.file_name, scope, method) {
                    Ok(signature) => self.check_function_call(signature, args),
                    Err(e) => Err(e),
                },
            },
            ExprRaw::OwnFieldAccess { field } => match &self.scope {
                None => Err(self.own_access_error()),
                Some(scope) => match self.get_type_field(&self.file_name, scope, field) {
                    Ok(t) => Ok(t.duplicate()),
                    Err(e) => Err(e),
                },
            },
            ExprRaw::This => match &self.scope {
                None => {
                    let cs = crate::text::chars_of("Using 'this' in the functions is not allowed!");
                    Err(crate::text::string_from_chars(cs.as_slice()))
                },
                Some(scope) => Ok(Type::IdentQualified(self.file_name.clone_alias(), scope.clone())),
            },
        }
    }

    /// `In file <file>:  Using @ is not allowed in functions`.
    fn own_access_error(&self) -> (r: String)
        ensures
            r@ == err_prefix(self@) + " Using @ is not allowed in functions"@,
    {
        let mut m = self.err_prefix();
        push_text(&mut m, " Using @ is not allowed in functions");
        finish(m)
    }

    /// The types of `items`, in order, up to the first that is not typed.
    fn calculate_vec(&self, items: &Vec<ExprRaw>) -> (r: Result<Vec<Type>, String>)
        requires
            calc_vec(self@, items@) != SeqOutcome::Stop(Outcome::Stuck),
        ensures
            match calc_vec(self@, items@) {
                SeqOutcome::All(ts) => r matches Ok(v) && crate::ast::sems_of(v@) == ts,
                SeqOutcome::Stop(o) => r matches Err(e) && o == Outcome::Failed(e@),
            },
        decreases items@, 1nat,
    {
        let mut out: Vec<Type> = Vec::new();
        let mut i: usize = 0;
        assert(items@.take(0) =~= Seq::<ExprRaw>::empty());
        assert(crate::ast::sems_of(out@) =~= Seq::<SemType>::empty());
        while i < items.len()
            invariant
                i <= items@.len(),
                calc_vec(self@, items@) != SeqOutcome::Stop(Outcome::Stuck),
                calc_vec(self@, items@.take(i as int)) == SeqOutcome::All(crate::ast::sems_of(out@)),
            decreases items@.len() - i,
        {
            proof {
                assert(items@.take(i + 1).drop_last() =~= items@.take(i as int));
                assert(items@.take(i + 1).last() == items@[i as int]);
                assert(items@.take(items@.len() as int) =~= items@);
                if calc(self@, items@[i as int]) == Outcome::Stuck {
                    lemma_calc_vec_stop(self@, items@, i + 1, items@.len() as int);
                }
            }
            match self.calculate(&items[i]) {
                Ok(t) => {
                    let ghost before = out@;
                    out.push(t);
                    assert(crate::ast::sems_of(out@) =~= crate::ast::sems_of(before).push(t@));
                },
                Err(e) => {
                    proof {
                        lemma_calc_vec_stop(self@, items@, i + 1, items@.len() as int);
                    }
                    return Err(e);
                },
            }
            i = i + 1;
        }
        assert(items@.take(items@.len() as int) =~= items@);
        Ok(out)
    }

    /// The type of a list literal: lists of the items' common type.
    fn calculate_list_value(&self, expr: &ExprRaw) -> (r: Result<Type, String>)
        requires
            expr is ListValue,
            calc(self@, *expr) != Outcome::Stuck,
        ensures
            outcome_matches(r, calc(self@, *expr)),
        decreases *expr, 1nat,
    {
        let items = match expr {
            ExprRaw::ListValue(items) => items,
            _ => {
                return Err(String::new());
            },
        };
        if items.len() == 0 {
            let r = Type::List(Box::new(Type::Anonymous));
            assert(r@ == SemType::List(Box::new(sem_of(Type::Anonymous))));
            return Ok(r);
        }
        let types = match self.calculate_vec(items) {
            Ok(types) => types,
            Err(e) => {
                return Err(e);
            },
        };
        if has_different_neighbours(&types) {
            let mut m = self.err_prefix();
            push_text(&mut m, " list items have different types: [");
            crate::ast::write_types_text(&types, &mut m);
            push_text(&mut m, "]");
            return Err(finish(m));
        }
        Ok(Type::List(Box::new(types[0].duplicate())))
    }

    /// The type of an indexed access: an item of a list indexed by an
    /// integer, or the item of a tuple at a literal index.
    fn calculate_access_by_index(&self, expr: &ExprRaw) -> (r: Result<Type, String>)
        requires
            expr is ListAccess,
            calc(self@, *expr) != Outcome::Stuck,
        ensures
            outcome_matches(r, calc(self@, *expr)),
        decreases *expr, 1nat,
    {
        let (list, index) = match expr {
            ExprRaw::ListAccess { list, index } => (list, index),
            _ => {
                return Err(String::new());
            },
        };
        let list_type = match self.calculate(list) {
            Ok(t) => t,
            Err(e) => {
                return Err(e);
            },
        };
        match &list_type {
            Type::List(item) => {
                let index_type = match self.calculate(index) {
                    Ok(t) => t,
                    Err(e) => {
                        return Err(e);
                    },
                };
                match index_type {
                    Type::Int => Ok((&**item).duplicate()),
                    t => {
                        let mut m: Vec<char> = Vec::new();
                        push_text(&mut m, "List index must be int, but got ");
                        t.write_text(&mut m);
                        push_text(&mut m, " in ");
                        let d = expr_debug(&**index);
                        push_text(&mut m, d.as_str());
                        Err(finish(m))
                    },
                }
            },
            Type::Tuple(items) => {
                proof {
                    crate::ast::lemma_sem_tuple(*items);
                }
                match &**index {
                    ExprRaw::Int(i) => {
                        let at = *i as usize;
                        if at < items.len() {
                            Ok(items[at].duplicate())
                        } else {
                            let mut m = self.err_prefix();
                            push_text(&mut m, " Out of bounds index in ");
                            let d = expr_debug(&**list);
                            push_text(&mut m, d.as_str());
                            Err(finish(m))
                        }
                    },
                    _ => {
                        let mut m: Vec<char> = Vec::new();
                        push_text(&mut m, "Not int for tuple access in ");
                        let d = expr_debug(&**list);
                        push_text(&mut m, d.as_str());
                        Err(finish(m))
                    },
                }
            },
            _ => {
                let mut m: Vec<char> = Vec::new();
                push_text(&mut m, "Expected tuple or list for index access, got ");
                list_type.write_text(&mut m);
                push_text(&mut m, " in ");
                let d = expr_debug(&**list);
                push_text(&mut m, d.as_str());
                Err(finish(m))
            },
        }
    }

    /// The type made by constructing (or, for active types, spawning) an
    /// instance: the constructor's return type.
    fn calculate_new_instance(&self, expr: &ExprRaw) -> (r: Result<Type, String>)
        requires
            expr is NewClassInstance || expr is SpawnActive,
            calc(self@, *expr) != Outcome::Stuck,
        ensures
            outcome_matches(r, calc(self@, *expr)),
        decreases *expr, 1nat,
    {
        let (typename, args, spawn) = match expr {
            ExprRaw::NewClassInstance { typename, args } => (typename, args, false),
            ExprRaw::SpawnActive { typename, args } => (typename, args, true),
            _ => {
                return Err(String::new());
            },
        };
        let class_signature = match self.get_class_signature(typename) {
            Ok(c) => c,
            Err(e) => {
                return Err(e);
            },
        };
        if !spawn && class_signature.is_active {
            let mut m = self.err_prefix();
            push_text(&mut m, " You must call spawn for ");
            push_text(&mut m, typename.as_str());
            return Err(finish(m));
        } else if spawn && !class_signature.is_active {
            let mut m = self.err_prefix();
            push_text(&mut m, " Cant spawn passive ");
            push_text(&mut m, typename.as_str());
            push_text(&mut m, "!");
            return Err(finish(m));
        }
        let found = find_last_named(&class_signature.methods, typename.as_str());
        proof {
            let m = class_signature@.2;
            assert forall|j: int| 0 <= j < m.len() implies (#[trigger] m[j]) == (
                class_signature.methods@[j].0@,
                class_signature.methods@[j].1@,
            ) by {}
            lemma_lookup_found(m, typename@, found);
        }
        match found {
            Some(k) => self.check_function_call(&class_signature.methods[k].1, args),
            None => Err(String::new()),
        }
    }

    /// The type of a method call: the method's return type, for methods of
    /// classes and of the built-in types with a method table.
    fn calculate_method_call(&self, expr: &ExprRaw) -> (r: Result<Type, String>)
        requires
            expr is MethodCall,
            calc(self@, *expr) != Outcome::Stuck,
        ensures
            outcome_matches(r, calc(self@, *expr)),
        decreases *expr, 1nat,
    {
        let (object, method, args) = match expr {
            ExprRaw::MethodCall { object, method, args } => (object, method, args),
            _ => {
                return Err(String::new());
            },
        };
        let object_type = match self.calculate(object) {
            Ok(t) => t,
            Err(e) => {
                return Err(e);
            },
        };
        match &object_type {
            Type::IdentQualified(module, name) => match self.get_type_method(module, name, method) {
                Ok(signature) => self.check_function_call(signature, args),
                Err(e) => Err(e),
            },
            Type::Ident(_) => Err(String::new()),
            Type::Maybe(_) => Err(String::new()),
            t => match get_std_method(t, method) {
                Ok(signature) => self.check_function_call(&signature, args),
                Err(e) => Err(e),
            },
        }
    }

    /// The type of a field access: the field's declared type.
    fn calculate_field_access(&self, expr: &ExprRaw) -> (r: Result<Type, String>)
        requires
            expr is FieldAccess,
            calc(self@, *expr) != Outcome::Stuck,
        ensures
            outcome_matches(r, calc(self@, *expr)),
        decreases *expr, 1nat,
    {
        let (object, field) = match expr {
            ExprRaw::FieldAccess { object, field } => (object, field),
            _ => {
                return Err(String::new());
            },
        };
        let object_type = match self.calculate(object) {
            Ok(t) => t,
            Err(e) => {
                return Err(e);
            },
        };
        match &object_type {
            Type::IdentQualified(module, name) => match self.get_type_field(module, name, field) {
                Ok(t) => Ok(t.duplicate()),
                Err(e) => Err(e),
            },
            Type::Ident(_) => Err(String::new()),
            _ => {
                let mut m: Vec<char> = Vec::new();
                push_text(&mut m, "Error at ");
                let d = expr_debug(&**object);
                push_text(&mut m, d.as_str());
                push_text(&mut m, " - type ");
                object_type.write_text(&mut m);
                push_text(&mut m, " has no fields");
                Err(finish(m))
            },
        }
    }

    /// A call of `function` with `args`: its return type when the number of
    /// arguments matches and each argument fits its parameter.
    fn check_function_call(&self, function: &FunctionSignature, args: &Vec<ExprRaw>) -> (r: Result<Type, String>)
        requires
            check_call(self@, function@, args@) != Outcome::Stuck,
        ensures
            outcome_matches(r, check_call(self@, function@, args@)),
        decreases args@, 1nat,
    {
        if function.args.len() != args.len() {
            let mut m = self.err_prefix();
            push_text(&mut m, " Wrong amount of arguments at ");
            let d = exprs_debug(args);
            push_text(&mut m, d.as_str());
            push_text(&mut m, ", expected ");
            let n = crate::text::decimal_u64(function.args.len() as u64);
            crate::text::extend_chars(&mut m, n.as_slice());
            return Err(finish(m));
        }
        let ghost params = function@.1;
        let mut i: usize = 0;
        assert(params.take(0) =~= Seq::<(Seq<char>, SemType)>::empty());
        assert(args@.take(0) =~= Seq::<ExprRaw>::empty());
        while i < args.len()
            invariant
                i <= args@.len(),
                args@.len() == function.args@.len(),
                params == function@.1,
                params.len() == args@.len(),
                check_call(self@, function@, args@) != Outcome::Stuck,
                check_args(self@, params.take(i as int), args@.take(i as int)) is None,
            decreases args@.len() - i,
        {
            proof {
                assert(params.take(i + 1).drop_last() =~= params.take(i as int));
                assert(args@.take(i + 1).drop_last() =~= args@.take(i as int));
                assert(params.take(i + 1).last() == params[i as int]);
                assert(args@.take(i + 1).last() == args@[i as int]);
                assert(params.take(params.len() as int) =~= params);
                assert(args@.take(args@.len() as int) =~= args@);
                if calc(self@, args@[i as int]) == Outcome::Stuck {
                    lemma_check_args_stop(self@, params, args@, i + 1, args@.len() as int);
                }
            }
            let t = match self.calculate(&args[i]) {
                Ok(t) => t,
                Err(e) => {
                    proof {
                        lemma_check_args_stop(self@, params, args@, i + 1, args@.len() as int);
                    }
                    return Err(e);
                },
            };
            let expected = &function.args[i];
            assert(params[i as int] == (expected.0@, expected.1@));
            if !are_types_same_or_maybe(&expected.1, &t) {
                proof {
                    lemma_check_args_stop(self@, params, args@, i + 1, args@.len() as int);
                }
                let mut m: Vec<char> = Vec::new();
                push_text(&mut m, "Wrong type for argument ");
                push_text(&mut m, expected.0.as_str());
                push_text(&mut m, ", expected ");
                expected.1.write_text(&mut m);
                push_text(&mut m, ", got ");
                t.write_text(&mut m);
                push_text(&mut m, " (");
                let d = expr_debug(&args[i]);
                push_text(&mut m, d.as_str());
                push_text(&mut m, ")");
                return Err(finish(m));
            }
            i = i + 1;
        }
        assert(params.take(params.len() as int) =~= params);
        assert(args@.take(args@.len() as int) =~= args@);
        Ok(function.rettype.duplicate())
    }
}

} // verus!

verus! {

/// A declared variable reads back with the type it was declared with: after
/// `add_variable(name, t)`, the identifier `name` has type `t`, whatever
/// was declared before.
pub proof fn law_declared_variable_has_its_type(env: CheckerModel, name: String, t: SemType)
    ensures
        calc((CheckerModel { vars: env.vars.push((name@, t)), ..env }), ExprRaw::Identifier(name)) == Outcome::Typed(t),
{
    let vars = env.vars.push((name@, t));
    assert(vars.last() == (name@, t));
}

} // verus!

