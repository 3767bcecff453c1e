use kool::language::environment::{Runtime, SharedEnvironment};
use kool::language::expression::{EvaluationError, Expression, Operator};
use kool::language::function::ExternalFunction;
use kool::language::importer::{load_library, LibraryLoadError};
use kool::language::interpreter::Host;
use kool::language::statement::StatementExecutionError;
use kool::language::text::display_of;
use kool::language::value::Value;
use kool::parsing::scan_and_parse;
use kool::root_environment::root_environment;

/// Answers every external call with null and remembers what was printed.
struct Recorder {
    printed: Vec<String>,
}

impl Host for Recorder {
    fn call(&mut self, function: ExternalFunction, args: &Vec<(String, Value)>) -> Value {
        if let ExternalFunction::Print = function {
            for (_, v) in args {
                self.printed.push(display_of(v));
            }
        }
        Value::Null
    }
}

fn run(source: &str) -> (Result<Value, StatementExecutionError>, Runtime, SharedEnvironment, Recorder) {
    let block = scan_and_parse(&source.to_owned()).expect("the program parses");
    let mut runtime = Runtime::new();
    let env = root_environment().into_shared(&mut runtime);
    let mut host = Recorder { printed: Vec::new() };
    let r = block.execute(&env, &mut runtime, &mut host);
    (r, runtime, env, host)
}

fn var(runtime: &Runtime, env: &SharedEnvironment, name: &str) -> Option<Value> {
    env.get_variable(runtime, &name.to_owned())
}

fn as_int(v: Option<Value>) -> i64 {
    match v {
        Some(Value::Int(n)) => n,
        other => panic!("expected an integer, got {:?}", other),
    }
}

#[test]
fn arithmetic_and_variables() {
    let (r, rt, env, _) = run("var x = 2 + 3 * 4\nvar y = (2 + 3) * 4\nvar z = 2 ^ 10\nx - y");
    assert!(matches!(r, Ok(Value::Int(-6))));
    assert_eq!(as_int(var(&rt, &env, "x")), 14);
    assert_eq!(as_int(var(&rt, &env, "y")), 20);
    assert_eq!(as_int(var(&rt, &env, "z")), 1024);
}

#[test]
fn declare_then_read() {
    let (r, rt, env, _) = run("var answer = 42\nanswer");
    assert!(matches!(r, Ok(Value::Int(42))));
    assert_eq!(as_int(var(&rt, &env, "answer")), 42);
}

#[test]
fn redeclaration_is_refused() {
    let (r, rt, env, _) = run("var a = 1\nvar a = 2");
    assert!(matches!(r, Err(StatementExecutionError::VariableRedeclaration(ref n)) if n == "a"));
    // The new value is stored before the redeclaration is reported.
    assert_eq!(as_int(var(&rt, &env, "a")), 2);
}

#[test]
fn assign_then_read() {
    let (r, rt, env, _) = run("var a = 1\na = 5\na");
    assert!(matches!(r, Ok(Value::Int(5))));
    assert_eq!(as_int(var(&rt, &env, "a")), 5);
}

#[test]
fn assignment_to_unknown_variable_is_refused() {
    let (r, rt, env, _) = run("b = 5");
    assert!(matches!(r, Err(StatementExecutionError::UnknownVariable(ref n)) if n == "b"));
    assert!(var(&rt, &env, "b").is_none());
}

#[test]
fn functions_with_defaults_and_named_arguments() {
    let (r, _, _, _) = run("def add(a, b = 10) { a + b }\nadd(a: 1) + add(a: 1, b: 2)");
    assert!(matches!(r, Ok(Value::Int(14))));
}

#[test]
fn while_loop_counts() {
    let (r, rt, env, _) = run("var i = 0\nvar total = 0\nwhile i < 5 { total = total + i\n i = i + 1 }\ntotal");
    assert!(matches!(r, Ok(Value::Int(10))));
    assert_eq!(as_int(var(&rt, &env, "i")), 5);
}

#[test]
fn if_else_chooses_a_branch() {
    let (r, _, _, _) = run("var x = 3\nif x > 2 { \"big\" } else { \"small\" }");
    match r {
        Ok(Value::String(s)) => assert_eq!(s, "big"),
        other => panic!("unexpected {:?}", other),
    }
}

#[test]
fn print_goes_to_the_host() {
    let (r, _, _, host) = run("print(\"hello\")");
    assert!(matches!(r, Ok(Value::Null)));
    assert_eq!(host.printed, vec!["hello".to_owned()]);
}

#[test]
fn division_by_zero_fails() {
    let (r, _, _, _) = run("1 / 0");
    assert!(r.is_err());
}

#[test]
fn overflow_fails() {
    let (r, _, _, _) = run("9223372036854775807 + 1");
    assert!(r.is_err());
}

#[test]
fn string_functions_of_the_standard_library() {
    let (r, _, _, _) = run("to_upper(\"abc\")");
    match r {
        Ok(Value::String(s)) => assert_eq!(s, "ABC"),
        other => panic!("unexpected {:?}", other),
    }
}

#[test]
fn maps_and_indexing() {
    let (r, _, _, _) = run("var m = { \"a\": 1, \"b\": 2 }\nm.b");
    assert!(matches!(r, Ok(Value::Int(2))));
}

#[test]
fn undefined_variable_reads_as_null() {
    let (r, _, _, _) = run("nothing");
    assert!(matches!(r, Ok(Value::Null)));
}

/// Serves one library file, `greet`, and one that does not parse, `broken`.
struct Files;

impl Host for Files {
    fn call(&mut self, function: ExternalFunction, args: &Vec<(String, Value)>) -> Value {
        if let ExternalFunction::LibrarySource = function {
            for (name, value) in args {
                if let (true, Value::String(lib)) = (name == "name", value) {
                    if lib == "greet" {
                        return Value::String("def hello() { \"hi\" }\nvar version = 2".to_owned());
                    }
                    if lib == "broken" {
                        return Value::String("var = ".to_owned());
                    }
                }
            }
        }
        Value::Null
    }
}

fn run_with_files(source: &str) -> Result<Value, StatementExecutionError> {
    let block = scan_and_parse(&source.to_owned()).expect("the program parses");
    let mut runtime = Runtime::new();
    let env = root_environment().into_shared(&mut runtime);
    block.execute(&env, &mut runtime, &mut Files)
}

#[test]
fn library_files_are_imported() {
    match run_with_files("import greet.*\nhello()") {
        Ok(Value::String(s)) => assert_eq!(s, "hi"),
        other => panic!("unexpected {:?}", other),
    }
    assert!(matches!(run_with_files("import greet\ngreet.version"), Ok(Value::Int(2))));
}

#[test]
fn missing_and_broken_libraries_are_refused() {
    assert!(matches!(
        run_with_files("import nothing"),
        Err(StatementExecutionError::Import(LibraryLoadError::NotFound))
    ));
    assert!(matches!(
        run_with_files("import broken"),
        Err(StatementExecutionError::Import(LibraryLoadError::ParsingFailed(_)))
    ));
}

#[test]
fn builtin_libraries_are_imported_as_maps() {
    let (r, rt, env, _) = run("import hyprland");
    assert!(matches!(r, Ok(Value::Null)));
    let ns = var(&rt, &env, "hyprland").expect("defined");
    assert!(matches!(ns, Value::Reference(_)));
    assert!(matches!(rt.resolve(&ns), Value::HashMap(_)));
}

#[test]
fn lower_case_and_alphabetic_names() {
    let (r, _, _, _) = run("var größe = to_lower(\"ÄBC\")\ngröße");
    match r {
        Ok(Value::String(s)) => assert_eq!(s, "äbc"),
        other => panic!("unexpected {:?}", other),
    }
}

fn eval_in_root(e: &Expression) -> (Result<Value, EvaluationError>, Runtime) {
    let mut runtime = Runtime::new();
    let env = root_environment().into_shared(&mut runtime);
    let mut host = Recorder { printed: Vec::new() };
    let r = e.evaluate(&env, &mut runtime, &mut host);
    (r, runtime)
}

fn lit(n: i64) -> Box<Expression> {
    Box::new(Expression::Value(Value::Int(n)))
}

#[test]
fn pure_binary_combines_what_its_operands_give() {
    let left = Expression::Binary { operator: Operator::Mul, left: lit(6), right: lit(7) };
    let right = Expression::Binary { operator: Operator::Sub, left: lit(10), right: lit(3) };
    let (lr, _) = eval_in_root(&left);
    let (rr, _) = eval_in_root(&right);
    assert!(matches!(lr, Ok(Value::Int(42))));
    assert!(matches!(rr, Ok(Value::Int(7))));
    let whole = Expression::Binary { operator: Operator::Div, left: Box::new(left), right: Box::new(right) };
    let (r, _) = eval_in_root(&whole);
    assert!(matches!(r, Ok(Value::Int(6))));
    let failing = Expression::Binary { operator: Operator::Div, left: lit(1), right: lit(0) };
    let short = Expression::Binary {
        operator: Operator::Or,
        left: Box::new(Expression::Value(Value::Bool(true))),
        right: Box::new(failing),
    };
    let (r, _) = eval_in_root(&short);
    assert!(matches!(r, Ok(Value::Bool(true))));
}

#[test]
fn pure_array_holds_each_element_or_null() {
    let failing = Expression::Binary { operator: Operator::Div, left: lit(1), right: lit(0) };
    let (fr, _) = eval_in_root(&failing);
    assert!(fr.is_err());
    let e = Expression::Array(vec![
        Expression::Binary { operator: Operator::Add, left: lit(1), right: lit(2) },
        failing,
        Expression::Variable("nowhere".to_owned()),
    ]);
    let (r, rt) = eval_in_root(&e);
    let r = r.map(|v| rt.resolve(&v));
    match r {
        Ok(Value::Array(vs)) => {
            assert_eq!(vs.len(), 3);
            assert!(matches!(vs[0], Value::Int(3)));
            assert!(matches!(vs[1], Value::Null));
            assert!(matches!(vs[2], Value::Null));
        }
        other => panic!("expected an array, got {:?}", other),
    }
    let m = Expression::HashMap(vec![(Expression::Value(Value::Int(1)), Expression::Binary {
        operator: Operator::Div,
        left: lit(1),
        right: lit(0),
    })]);
    let (r, rt) = eval_in_root(&m);
    assert!(matches!(r.map(|v| rt.resolve(&v)), Ok(Value::HashMap(_))));
}

fn index_string(s: &str, i: i64) -> Result<Value, EvaluationError> {
    let e = Expression::Binary {
        operator: Operator::Index,
        left: Box::new(Expression::Value(Value::String(s.to_owned()))),
        right: lit(i),
    };
    eval_in_root(&e).0
}

#[test]
fn string_index_counts_bytes() {
    assert!(matches!(index_string("abc", 1), Ok(Value::String(ref t)) if t == "b"));
    assert!(matches!(index_string("h\u{e9}llo", 3), Ok(Value::String(ref t)) if t == "l"));
    assert!(matches!(index_string("h\u{e9}llo", 1), Err(EvaluationError::IndexOutOfBounds { index: 1, .. })));
    assert!(matches!(index_string("h\u{e9}llo", 2), Err(EvaluationError::IndexOutOfBounds { index: 2, .. })));
    assert!(matches!(index_string("abc", 3), Err(EvaluationError::IndexOutOfBounds { index: 3, .. })));
    assert!(matches!(index_string("abc", -1), Err(EvaluationError::UnexpecteNonPositiveInteger(-1))));
}

fn pair(k: i64, v: i64) -> (Expression, Expression) {
    (Expression::Value(Value::Int(k)), Expression::Value(Value::Int(v)))
}

fn compare(l: Expression, r: Expression, op: Operator) -> Result<Value, EvaluationError> {
    eval_in_root(&Expression::Binary { operator: op, left: Box::new(l), right: Box::new(r) }).0
}

fn map_of(pairs: &[(i64, i64)]) -> Expression {
    Expression::HashMap(pairs.iter().map(|&(k, v)| pair(k, v)).collect())
}

#[test]
fn maps_are_equal_whatever_the_order_of_their_keys() {
    assert!(matches!(compare(map_of(&[(1, 2), (3, 4)]), map_of(&[(3, 4), (1, 2)]), Operator::Eq), Ok(Value::Bool(true))));
    assert!(matches!(compare(map_of(&[(1, 2), (3, 4)]), map_of(&[(3, 4), (1, 5)]), Operator::Eq), Ok(Value::Bool(false))));
    assert!(matches!(compare(map_of(&[(1, 2), (3, 4)]), map_of(&[(3, 4), (1, 5)]), Operator::NotEq), Ok(Value::Bool(true))));
    assert!(matches!(compare(map_of(&[(1, 2)]), map_of(&[(1, 2), (3, 4)]), Operator::Eq), Ok(Value::Bool(false))));
    let xs = Expression::Array(vec![map_of(&[(1, 2), (3, 4)]), Expression::Value(Value::Int(1))]);
    let ys = Expression::Array(vec![map_of(&[(3, 4), (1, 2)]), Expression::Value(Value::Int(1))]);
    assert!(matches!(compare(xs, ys, Operator::Eq), Ok(Value::Bool(true))));
}

#[test]
fn arrays_are_shared_between_variables() {
    let (r, rt, env, _) = run("var a = [1, 2, 3]\nvar b = a\nb[0] = 5\na[0]");
    assert!(matches!(r, Ok(Value::Int(5))));
    match rt.resolve(&var(&rt, &env, "a").expect("defined")) {
        Value::Array(xs) => {
            assert_eq!(xs.len(), 3);
            assert!(matches!(xs[0], Value::Int(5)));
            assert!(matches!(xs[1], Value::Int(2)));
            assert!(matches!(xs[2], Value::Int(3)));
        }
        other => panic!("expected an array, got {:?}", other),
    }
}

#[test]
fn writes_through_a_parameter_are_seen_by_the_caller() {
    let (r, _, _, _) = run("var a = [1, 2]\ndef poke(xs) { xs[1] = 9 }\npoke(xs: a)\na[1]");
    assert!(matches!(r, Ok(Value::Int(9))));
    let (r, _, _, _) = run("var m = {\"k\": 1}\nvar n = m\nn[\"k\"] = 4\nm[\"k\"]");
    assert!(matches!(r, Ok(Value::Int(4))));
}

#[test]
fn nested_arrays_are_shared_too() {
    let (r, _, _, _) = run("var inner = [1]\nvar outer = [inner]\nouter[0][0] = 7\ninner[0]");
    assert!(matches!(r, Ok(Value::Int(7))));
}

#[test]
fn clone_makes_an_independent_copy() {
    let (r, _, _, _) = run("var a = [1, 2]\nvar c = clone(a)\nc[0] = 8\na[0]");
    assert!(matches!(r, Ok(Value::Int(1))));
    let (r, _, _, _) = run("var a = [1, 2]\nvar c = clone(a)\nc[0] = 8\nc[0]");
    assert!(matches!(r, Ok(Value::Int(8))));
}

fn load(name: &str, local: Option<&str>, user: Option<&str>) -> Result<Vec<String>, LibraryLoadError> {
    let mut runtime = Runtime::new();
    let mut host = Recorder { printed: Vec::new() };
    load_library(&name.to_owned(), local.map(|s| s.to_owned()), user.map(|s| s.to_owned()), &mut runtime, &mut host)
        .map(|lib| lib.into_entries().into_iter().map(|(n, _)| n).collect())
}

#[test]
fn libraries_are_searched_in_order() {
    let names = load("mpris", Some("var ignored = 1"), None).expect("built in");
    assert!(!names.is_empty());
    assert!(!names.contains(&"ignored".to_owned()));
    let names = load("mine", Some("var here = 1\nvar also = 2"), Some("var there = 3")).expect("local file");
    assert_eq!(names, vec!["here".to_owned(), "also".to_owned()]);
    let names = load("mine", None, Some("var there = 3")).expect("user file");
    assert_eq!(names, vec!["there".to_owned()]);
    assert!(matches!(load("mine", Some("var = ="), Some("var there = 3")), Err(LibraryLoadError::ParsingFailed(_))));
    assert!(matches!(load("mine", None, None), Err(LibraryLoadError::NotFound)));
}

#[test]
fn operators_group_from_the_left_and_by_level() {
    let (r, _, _, _) = run("10 - 4 - 3");
    assert!(matches!(r, Ok(Value::Int(3))));
    let (r, _, _, _) = run("1 + 2 * 3");
    assert!(matches!(r, Ok(Value::Int(7))));
    let (r, _, _, _) = run("2 * 3 + 1 < 8 && 1 == 1");
    assert!(matches!(r, Ok(Value::Bool(true))));
    let (r, _, _, _) = run("100 / 10 / 5");
    assert!(matches!(r, Ok(Value::Int(2))));
}

#[test]
fn a_library_whose_run_fails_still_gives_what_it_defined() {
    let names = load("mine", Some("var kept = 1\n1 / 0\nvar lost = 2"), None).expect("parsed");
    assert_eq!(names, vec!["kept".to_owned()]);
}
