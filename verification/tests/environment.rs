use kool::language::environment::{Environment, Runtime};
use kool::language::library::Library;
use kool::language::value::Value;

fn as_int(v: Option<Value>) -> Option<i64> {
    match v {
        Some(Value::Int(n)) => Some(n),
        _ => None,
    }
}

#[test]
fn define_then_get_and_other_names_stay() {
    let mut runtime = Runtime::new();
    let outer = Environment::new(None).into_shared(&mut runtime);
    outer.define_variable(&mut runtime, "a".to_owned(), Value::Int(1));
    let inner = Environment::new(Some(outer)).into_shared(&mut runtime);
    assert!(inner.define_variable(&mut runtime, "b".to_owned(), Value::Int(2)).is_none());
    assert_eq!(as_int(inner.get_variable(&runtime, &"b".to_owned())), Some(2));
    assert_eq!(as_int(inner.get_variable(&runtime, &"a".to_owned())), Some(1));
    // Defining again answers the value it replaces.
    assert_eq!(as_int(inner.define_variable(&mut runtime, "b".to_owned(), Value::Int(3))), Some(2));
}

#[test]
fn set_answers_the_previous_value_and_reaches_outer_scopes() {
    let mut runtime = Runtime::new();
    let outer = Environment::new(None).into_shared(&mut runtime);
    outer.define_variable(&mut runtime, "a".to_owned(), Value::Int(1));
    let inner = Environment::new(Some(outer)).into_shared(&mut runtime);
    assert_eq!(as_int(inner.set_variable(&mut runtime, &"a".to_owned(), Value::Int(5))), Some(1));
    assert_eq!(as_int(outer.get_variable(&runtime, &"a".to_owned())), Some(5));
    assert_eq!(as_int(inner.get_variable(&runtime, &"a".to_owned())), Some(5));
    // Setting what no scope defines changes nothing.
    assert!(inner.set_variable(&mut runtime, &"zz".to_owned(), Value::Int(5)).is_none());
    assert!(inner.get_variable(&runtime, &"zz".to_owned()).is_none());
}

#[test]
fn merged_libraries_take_the_later_values() {
    let mut first = Library::new();
    first.define("a".to_owned(), Value::Int(1));
    first.define("b".to_owned(), Value::Int(2));
    let mut second = Library::new();
    second.define("b".to_owned(), Value::Int(20));
    second.define("c".to_owned(), Value::Int(30));
    let merged = first.merge(second);
    let mut env = Environment::new(None);
    env.import(merged);
    let mut runtime = Runtime::new();
    let env = env.into_shared(&mut runtime);
    assert_eq!(as_int(env.get_variable(&runtime, &"a".to_owned())), Some(1));
    assert_eq!(as_int(env.get_variable(&runtime, &"b".to_owned())), Some(20));
    assert_eq!(as_int(env.get_variable(&runtime, &"c".to_owned())), Some(30));
}

#[test]
fn namespaces_are_maps() {
    let mut lib = Library::new();
    lib.define("x".to_owned(), Value::Int(7));
    let mut runtime = Runtime::new();
    let env = Environment::new(None).into_shared(&mut runtime);
    env.import_namespace(&mut runtime, "ns".to_owned(), lib);
    match env.get_variable(&runtime, &"ns".to_owned()).map(|v| runtime.resolve(&v)) {
        Some(Value::HashMap(pairs)) => {
            assert_eq!(pairs.len(), 1);
            assert!(matches!(&pairs[0], (Value::String(k), Value::Int(7)) if k == "x"));
        }
        other => panic!("unexpected {:?}", other),
    }
}
