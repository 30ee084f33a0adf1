use rust_lisp::interpreter::{eval, Host};
use rust_lisp::model::{Env, Heap, List, RuntimeError, Symbol, Value};

/// A host with one procedure, `bump`, which adds one to the `counter` of the environment
/// that it is called in and hands back the number of its arguments.
struct Counting;

impl Host for Counting {
    fn invoke(
        &self,
        heap: &mut Heap,
        env: Env,
        name: &Symbol,
        args: &Vec<Value>,
    ) -> Result<Value, RuntimeError> {
        if !name.spells("bump") {
            return Err(RuntimeError::NotCallable);
        }
        let counter = Symbol::new("counter");
        match heap.lookup(env, &counter)? {
            Value::Integer(n) => heap.set(env, &counter, Value::Integer(n + 1))?,
            _ => return Err(RuntimeError::TypeMismatch),
        }
        Ok(Value::Integer(args.len() as i64))
    }
}

#[test]
fn a_primitive_of_the_host_is_run_in_the_environment_of_the_call() {
    let mut heap = Heap::new();
    let env = heap.root();
    heap.define(env, Symbol::new("counter"), Value::Integer(0));
    heap.define(env, Symbol::new("bump"), Value::Primitive(Symbol::new("bump")));
    let inner = heap.child(env);
    let call = Value::List(List::from_iter(vec![
        Value::Symbol(Symbol::new("bump")),
        Value::Integer(7),
        Value::Symbol(Symbol::new("counter")),
    ]));
    assert_eq!(eval(&Counting, &mut heap, inner, &call, 10), Ok(Value::Integer(2)));
    assert_eq!(eval(&Counting, &mut heap, inner, &call, 10), Ok(Value::Integer(2)));
    assert_eq!(heap.lookup(env, &Symbol::new("counter")), Ok(Value::Integer(2)));
    let unknown = Value::List(List::from_iter(vec![Value::Primitive(Symbol::new("other"))]));
    assert_eq!(eval(&Counting, &mut heap, inner, &unknown, 10), Err(RuntimeError::NotCallable));
}
