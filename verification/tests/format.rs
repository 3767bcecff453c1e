use kool::language::environment::{Environment, Runtime};
use kool::language::format::format_string_with_args;
use kool::language::value::Value;

#[test]
fn fill_in_from_environment() {
    let mut runtime = Runtime::new();
    let mut environment = Environment::new(None);
    environment.define_variable(
        "question".to_owned(),
        Value::String("life, universe and everything".to_owned()),
    );
    environment.define_variable("answer".to_owned(), Value::Int(42));
    let environment = environment.into_shared(&mut runtime);

    let formatted = format_string_with_args(
        &"The answer to the question of {question} is {answer} (aka {answer:0b} or {answer:0X})".to_owned(),
        &vec![],
        &environment,
        &runtime,
    );

    assert_eq!(
        formatted,
        "The answer to the question of life, universe and everything is 42 (aka 101010 or 2A)",
    );
}

#[test]
fn padding() {
    let mut runtime = Runtime::new();
    let environment = Environment::new(None).into_shared(&mut runtime);
    let formatted = format_string_with_args(
        &"{:02}:{:02}".to_owned(),
        &vec![Value::Int(7), Value::Int(7)],
        &environment,
        &runtime,
    );

    assert_eq!(formatted, "07:07",);
}

#[test]
fn text_without_braces_is_written_as_it_is() {
    let mut runtime = Runtime::new();
    let environment = Environment::new(None).into_shared(&mut runtime);
    let formatted = format_string_with_args(&"no sections here".to_owned(), &vec![Value::Int(1)], &environment, &runtime);
    assert_eq!(formatted, "no sections here");
}
