use kool::language::value::Value;
use kool::utils::{eq_ignore_ascii_case_of, CloneInner, SimpleCase, TryFromValue};
use std::rc::Rc;

#[test]
fn simple_case_keeps_letters_and_digits() {
    assert_eq!(SimpleCase::new("Text_Size-2!").to_simple_string(), "textsize2");
    assert_eq!(SimpleCase::new("ÄbC").to_simple_string(), "bc");
}

#[test]
fn ascii_case_is_ignored() {
    assert!(eq_ignore_ascii_case_of(&"TOP".to_owned(), &"top".to_owned()));
    assert!(!eq_ignore_ascii_case_of(&"topp".to_owned(), &"top".to_owned()));
}

#[test]
fn values_read_back() {
    assert!(matches!(Value::try_from_value(&Value::Int(3)), Some(Value::Int(3))));
    let shared = Rc::new("x".to_owned());
    assert_eq!(shared.clone_inner(), "x");
}
