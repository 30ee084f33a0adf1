use rust_lisp::model::hash::{digest_of_text, mixed};
use rust_lisp::model::lambda::{digest_of_names, same_names};
use rust_lisp::model::{Env, Heap, Lambda, List, Symbol, Value};
use std::collections::hash_map::DefaultHasher;
use std::collections::HashSet;
use std::hash::{Hash, Hasher};
use std::sync::Arc;

#[test]
fn a_digest_is_built_word_by_word() {
    assert_eq!(mixed(0, 5), 5);
    assert_eq!(mixed(1, 0), 1099511628211);
    assert_eq!(mixed(2, 3), 2199023256425);
    assert_eq!(mixed(u64::MAX, 0), 0u64.wrapping_sub(1099511628211));
    assert_eq!(digest_of_text(""), 14695981039346656037);
    assert_eq!(
        digest_of_text("a"),
        14695981039346656037u64.wrapping_mul(1099511628211).wrapping_add(97)
    );
    assert_eq!(digest_of_names(&vec![]), 0);
    assert_eq!(digest_of_names(&vec![Symbol::new("a")]), digest_of_text("a"));
}

#[test]
fn values_that_are_equal_have_the_same_hash() {
    let a = List::from_iter(vec![Value::Integer(1), Value::Integer(2)]);
    let b = List::from_iter(vec![Value::Integer(1), Value::Integer(3)]);
    assert!(a == b);
    assert_eq!(a.hash_code(), b.hash_code());
    assert_eq!(Value::List(a.clone()).hash_code(), Value::List(b.clone()).hash_code());
    assert_eq!(a.hash_code(), mixed(9, mixed(3, 1)));
    assert_eq!(List::nil().hash_code(), 8);
    assert_eq!(Value::Nil.hash_code(), 0);
    assert_eq!(Value::Boolean(true).hash_code(), 1);
    assert_eq!(Value::Boolean(false).hash_code(), 2);
    assert_eq!(Value::Integer(-1).hash_code(), mixed(4, 0));
    assert_eq!(Value::Integer(i64::MIN).hash_code(), mixed(4, i64::MAX as u64));
    assert_eq!(Value::String(String::from("a")).hash_code(), mixed(5, digest_of_text("a")));
    assert_eq!(Value::Symbol(Symbol::new("a")).hash_code(), mixed(6, digest_of_text("a")));
    assert_eq!(Value::Primitive(Symbol::new("a")).hash_code(), mixed(7, digest_of_text("a")));
    let mut seen = HashSet::new();
    assert!(seen.insert(Value::List(a)));
    assert!(!seen.insert(Value::List(b)));
    assert!(seen.insert(Value::Integer(1)));
    assert!(seen.contains(&Value::Integer(1)));
    assert!(!seen.contains(&Value::Integer(2)));
}

#[test]
fn the_hash_of_a_lambda_goes_by_its_environment() {
    let mut heap = Heap::new();
    let one = heap.root();
    let two = heap.root();
    let elsewhere = Heap::new().root();
    let make = |closure: Env| Lambda {
        closure,
        argnames: vec![Symbol::new("a"), Symbol::new("b")],
        body: Arc::new(Value::Integer(1)),
    };
    assert_eq!(make(one).hash_code(), make(one).hash_code());
    assert!(make(one).hash_code() != make(two).hash_code());
    assert!(make(one).hash_code() != make(elsewhere).hash_code());
    assert_eq!(
        make(two).hash_code(),
        mixed(
            mixed(
                mixed(mixed(10, two.heap() as u64), 1),
                mixed(mixed(0, digest_of_text("a")), digest_of_text("b"))
            ),
            mixed(3, 1)
        )
    );
    assert_eq!(Value::Lambda(make(one)).hash_code(), make(one).hash_code());
    assert!(same_names(&make(one).argnames, &make(two).argnames));
    assert!(!same_names(&make(one).argnames, &vec![Symbol::new("a")]));
    assert!(!same_names(&make(one).argnames, &vec![Symbol::new("a"), Symbol::new("c")]));
}

fn hashed<T: Hash>(value: &T) -> u64 {
    let mut state = DefaultHasher::new();
    value.hash(&mut state);
    state.finish()
}

fn word_hashed(word: u64) -> u64 {
    let mut state = DefaultHasher::new();
    state.write_u64(word);
    state.finish()
}

#[test]
fn a_hasher_is_given_the_hash_of_the_value() {
    let list = List::from_iter(vec![Value::Integer(1), Value::Integer(2)]);
    let lambda = Lambda {
        closure: Heap::new().root(),
        argnames: vec![Symbol::new("a")],
        body: Arc::new(Value::Integer(1)),
    };
    assert_eq!(hashed(&Value::Integer(1)), word_hashed(Value::Integer(1).hash_code()));
    assert_eq!(hashed(&list), word_hashed(list.hash_code()));
    assert_eq!(hashed(&lambda), word_hashed(lambda.hash_code()));
    assert!(hashed(&Value::Integer(1)) != hashed(&Value::Integer(2)));
    assert!(hashed(&Value::Integer(1)) != word_hashed(0));
}
