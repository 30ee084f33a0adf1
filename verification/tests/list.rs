use rust_lisp::model::{List, RuntimeError, Value};

#[test]
fn car_of_cons_is_the_item() {
    let tail = List::nil().cons(Value::Integer(2));
    let list = tail.cons(Value::Integer(1));
    assert_eq!(list.car(), Ok(Value::Integer(1)));
    assert_eq!(list.cdr().car(), Ok(Value::Integer(2)));
    assert_eq!(list.cdr().to_vec(), tail.to_vec());
}

#[test]
fn cons_onto_nil_gives_back_nil_as_cdr() {
    let list = List::nil().cons(Value::Boolean(true));
    assert_eq!(list.car(), Ok(Value::Boolean(true)));
    assert!(list.cdr().is_empty());
}

#[test]
fn car_of_nil_fails_and_cdr_of_nil_is_nil() {
    assert_eq!(List::nil().car(), Err(RuntimeError::EmptyListAccess));
    assert!(List::nil().cdr().is_empty());
    assert!(List::nil().cdr().cdr().is_empty());
}

#[test]
fn cons_leaves_the_given_list_as_it_was() {
    let tail = List::nil().cons(Value::Integer(2));
    let longer = tail.cons(Value::Integer(1));
    assert_eq!(tail.to_vec(), vec![Value::Integer(2)]);
    assert_eq!(longer.to_vec(), vec![Value::Integer(1), Value::Integer(2)]);
}

#[test]
fn iterating_yields_items_in_order() {
    let list = List::nil().cons(Value::Integer(2)).cons(Value::Integer(1));
    let mut walk = List::into_iter(&list);
    assert_eq!(walk.len(), 2);
    assert_eq!(walk.next(), Some(Value::Integer(1)));
    assert_eq!(walk.len(), 1);
    assert_eq!(walk.next(), Some(Value::Integer(2)));
    assert_eq!(walk.next(), None);
    assert_eq!(walk.next(), None);
    let mut rest = List::into_iter(&list.cdr());
    assert_eq!(rest.next(), Some(Value::Integer(2)));
    assert_eq!(rest.next(), None);
}

#[test]
fn iterating_twice_starts_at_the_head_again() {
    let list = List::nil().cons(Value::Integer(2)).cons(Value::Integer(1));
    let mut first = List::into_iter(&list);
    assert_eq!(first.next(), Some(Value::Integer(1)));
    let mut second = List::into_iter(&list);
    assert_eq!(second.next(), Some(Value::Integer(1)));
    let mut copy = second.clone();
    assert_eq!(second.next(), Some(Value::Integer(2)));
    assert_eq!(copy.next(), Some(Value::Integer(2)));
}

#[test]
fn from_iter_keeps_the_order() {
    let list = List::from_iter(vec![Value::Integer(1), Value::Integer(2), Value::Integer(3)]);
    assert_eq!(list.car(), Ok(Value::Integer(1)));
    assert_eq!(list.to_vec(), vec![Value::Integer(1), Value::Integer(2), Value::Integer(3)]);
    assert!(List::from_iter(Vec::new()).is_empty());
}

#[test]
fn lists_are_equal_when_their_first_items_are() {
    let a = List::from_iter(vec![Value::Integer(1), Value::Integer(2)]);
    let b = List::from_iter(vec![Value::Integer(1), Value::Integer(3)]);
    let c = List::from_iter(vec![Value::Integer(2), Value::Integer(2)]);
    assert!(a == b);
    assert!(a != c);
    assert!(List::nil() == List::nil());
    assert!(a != List::nil());
    assert!(List::nil() != a);
    assert!(Value::List(a.clone()) == Value::List(b));
    assert!(Value::List(List::nil()) != Value::Nil);
}

#[test]
fn lists_are_written_between_brackets() {
    let list = List::from_iter(vec![
        Value::Integer(1),
        Value::String(String::from("two")),
        Value::List(List::from_iter(vec![Value::Symbol(rust_lisp::model::Symbol::new("x"))])),
        Value::List(List::nil()),
    ]);
    assert_eq!(list.to_string(), "(1 \"two\" (x) NIL)");
    assert_eq!(List::nil().to_string(), "NIL");
    assert_eq!(List::nil().cons(Value::Integer(-7)).to_string(), "(-7)");
}
