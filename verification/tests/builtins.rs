use rust_lisp::interpreter::Host;
use rust_lisp::model::{Heap, List, RuntimeError, Symbol, Value};
use rust_lisp::Builtins;

fn call(name: &str, args: Vec<Value>) -> Result<Value, RuntimeError> {
    let mut heap = Heap::new();
    let env = heap.root();
    Builtins.invoke(&mut heap, env, &Symbol::new(name), &args)
}

fn num(n: i64) -> Value {
    Value::Integer(n)
}

#[test]
fn sums_and_products() {
    assert_eq!(call("+", vec![]), Ok(num(0)));
    assert_eq!(call("+", vec![num(5), num(3)]), Ok(num(8)));
    assert_eq!(call("+", vec![num(1), num(2), num(-7)]), Ok(num(-4)));
    assert_eq!(call("*", vec![]), Ok(num(1)));
    assert_eq!(call("*", vec![num(4), num(4)]), Ok(num(16)));
    assert_eq!(call("-", vec![num(4), num(6)]), Ok(num(-2)));
}

#[test]
fn arithmetic_that_does_not_fit_is_an_error() {
    assert_eq!(call("+", vec![num(i64::MAX), num(1)]), Err(RuntimeError::Overflow));
    assert_eq!(call("+", vec![num(i64::MAX), num(1), num(-1)]), Err(RuntimeError::Overflow));
    assert_eq!(call("*", vec![num(i64::MIN), num(-1)]), Err(RuntimeError::Overflow));
    assert_eq!(call("-", vec![num(i64::MIN), num(1)]), Err(RuntimeError::Overflow));
    assert_eq!(call("+", vec![num(i64::MAX), num(0)]), Ok(num(i64::MAX)));
}

#[test]
fn arithmetic_works_on_integers_only() {
    assert_eq!(call("+", vec![num(1), Value::Nil]), Err(RuntimeError::TypeMismatch));
    assert_eq!(call("*", vec![Value::Boolean(true)]), Err(RuntimeError::TypeMismatch));
    assert_eq!(call("-", vec![num(1), Value::Nil]), Err(RuntimeError::TypeMismatch));
    assert_eq!(call("<", vec![Value::Nil, num(1)]), Err(RuntimeError::TypeMismatch));
    assert_eq!(call("car", vec![num(1)]), Err(RuntimeError::TypeMismatch));
    assert_eq!(call("cdr", vec![num(1)]), Err(RuntimeError::TypeMismatch));
    assert_eq!(call("cons", vec![num(1), num(2)]), Err(RuntimeError::TypeMismatch));
}

#[test]
fn the_number_of_arguments_is_checked() {
    assert_eq!(call("-", vec![num(1)]), Err(RuntimeError::ArityMismatch { expected: 2, actual: 1 }));
    assert_eq!(call("<", vec![]), Err(RuntimeError::ArityMismatch { expected: 2, actual: 0 }));
    assert_eq!(
        call("=", vec![num(1), num(1), num(1)]),
        Err(RuntimeError::ArityMismatch { expected: 2, actual: 3 })
    );
    assert_eq!(call("car", vec![]), Err(RuntimeError::ArityMismatch { expected: 1, actual: 0 }));
    assert_eq!(call("cdr", vec![]), Err(RuntimeError::ArityMismatch { expected: 1, actual: 0 }));
    assert_eq!(call("cons", vec![num(1)]), Err(RuntimeError::ArityMismatch { expected: 2, actual: 1 }));
}

#[test]
fn comparisons() {
    assert_eq!(call("<", vec![num(1), num(2)]), Ok(Value::Boolean(true)));
    assert_eq!(call("<", vec![num(2), num(2)]), Ok(Value::Boolean(false)));
    assert_eq!(call("=", vec![num(2), num(2)]), Ok(Value::Boolean(true)));
    assert_eq!(call("=", vec![num(2), Value::Nil]), Ok(Value::Boolean(false)));
}

#[test]
fn lists_are_taken_apart_and_put_together() {
    let list = call("list", vec![num(1), num(2)]).unwrap();
    assert_eq!(list.to_string(), "(1 2)");
    assert_eq!(call("car", vec![list.clone()]), Ok(num(1)));
    assert_eq!(call("cdr", vec![list.clone()]).unwrap().to_string(), "(2)");
    assert_eq!(call("cons", vec![num(0), list]).unwrap().to_string(), "(0 1 2)");
    assert_eq!(call("car", vec![Value::List(List::nil())]), Err(RuntimeError::EmptyListAccess));
    assert_eq!(call("cdr", vec![Value::List(List::nil())]).unwrap().to_string(), "NIL");
    assert_eq!(call("list", vec![]).unwrap().to_string(), "NIL");
}

#[test]
fn a_name_that_is_not_built_in_cannot_be_called() {
    assert_eq!(call("frobnicate", vec![]), Err(RuntimeError::NotCallable));
}
