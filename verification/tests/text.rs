use rust_lisp::model::value::same_text;
use rust_lisp::model::{Env, Heap, Lambda, List, RuntimeError, Symbol, Value};

fn some_env() -> Env {
    Heap::new().root()
}
use std::sync::Arc;

#[test]
fn values_are_written_out() {
    assert_eq!(Value::Nil.to_string(), "NIL");
    assert_eq!(Value::Boolean(true).to_string(), "T");
    assert_eq!(Value::Boolean(false).to_string(), "F");
    assert_eq!(Value::Integer(0).to_string(), "0");
    assert_eq!(Value::Integer(9).to_string(), "9");
    assert_eq!(Value::Integer(10).to_string(), "10");
    assert_eq!(Value::Integer(1234567890).to_string(), "1234567890");
    assert_eq!(Value::Integer(-1).to_string(), "-1");
    assert_eq!(Value::Integer(i64::MAX).to_string(), "9223372036854775807");
    assert_eq!(Value::Integer(i64::MIN).to_string(), "-9223372036854775808");
    assert_eq!(Value::String(String::from("hi there")).to_string(), "\"hi there\"");
    assert_eq!(Value::Symbol(Symbol::new("car")).to_string(), "car");
    assert_eq!(Value::Primitive(Symbol::new("+")).to_string(), "<primitive:+>");
    assert_eq!(Value::List(List::nil()).to_string(), "NIL");
}

#[test]
fn a_lambda_is_written_as_its_parameters_and_its_bare_body() {
    let times = Value::List(List::from_iter(vec![
        Value::Symbol(Symbol::new("*")),
        Value::Symbol(Symbol::new("n")),
        Value::Symbol(Symbol::new("m")),
    ]));
    let lambda = Lambda {
        closure: some_env(),
        argnames: vec![Symbol::new("n"), Symbol::new("m")],
        body: Arc::new(times),
    };
    assert_eq!(lambda.to_string(), "(n m) * n m");
    assert_eq!(Value::Lambda(lambda).to_string(), "<func:(lambda (n m) * n m)>");
    let constant = Lambda { closure: some_env(), argnames: vec![], body: Arc::new(Value::Integer(5)) };
    assert_eq!(constant.to_string(), "() 5");
    let empty = Lambda {
        closure: some_env(),
        argnames: vec![Symbol::new("x")],
        body: Arc::new(Value::List(List::nil())),
    };
    assert_eq!(empty.to_string(), "(x) NIL");
}

#[test]
fn errors_are_put_in_words() {
    assert_eq!(RuntimeError::EmptyListAccess.message(), "Attempted to apply car on nil");
    assert_eq!(RuntimeError::UnboundSymbol(Symbol::new("x")).message(), "\"x\" is not defined");
    assert_eq!(
        RuntimeError::ArityMismatch { expected: 2, actual: 13 }.message(),
        "expected 2 arguments, got 13"
    );
    assert_eq!(RuntimeError::NotCallable.message(), "value is not callable");
    assert_eq!(
        RuntimeError::MalformedSpecialForm(Symbol::new("lambda")).message(),
        "malformed special form: lambda"
    );
    assert_eq!(RuntimeError::TypeMismatch.message(), "argument has the wrong type");
    assert_eq!(RuntimeError::Overflow.message(), "integer overflow");
    assert_eq!(RuntimeError::DepthExceeded.message(), "evaluation nests too deeply");
}

#[test]
fn a_symbol_spells_its_word_and_no_other() {
    let word = Symbol::new("define");
    assert!(word.spells("define"));
    assert!(!word.spells("defin"));
    assert!(!word.spells("define "));
    assert!(!word.spells(""));
    assert!(Symbol::new("").spells(""));
    assert_eq!(word, Symbol(String::from("define")));
    assert_eq!(word.clone(), word);
    assert!(word != Symbol::new("set"));
}

#[test]
fn copies_are_equal_to_what_they_copy() {
    let list = Value::List(List::from_iter(vec![Value::Integer(1), Value::String(String::from("a"))]));
    assert_eq!(list.clone().to_string(), "(1 \"a\")");
    let error = RuntimeError::ArityMismatch { expected: 1, actual: 2 };
    assert_eq!(error.clone(), error);
    assert_eq!(
        RuntimeError::UnboundSymbol(Symbol::new("x")).clone(),
        RuntimeError::UnboundSymbol(Symbol::new("x"))
    );
    let lambda = Lambda {
        closure: some_env(),
        argnames: vec![Symbol::new("a")],
        body: Arc::new(Value::Integer(1)),
    };
    assert!(lambda.clone() == lambda);
    assert_eq!(lambda.clone().to_string(), "(a) 1");
}

#[test]
fn texts_are_told_apart_by_their_characters() {
    assert!(same_text("", ""));
    assert!(same_text("lambda", "lambda"));
    assert!(!same_text("lambda", "lambdb"));
    assert!(!same_text("lambda", "lambd"));
    assert!(!same_text("a", "b"));
    assert!(same_text("gr\u{fc}n", "gr\u{fc}n"));
    assert!(!same_text("gr\u{fc}n", "grun"));
}
