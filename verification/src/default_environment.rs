//! The built-in procedures, and the environment in which programs start.

use crate::interpreter::{Host, Step};
use crate::model::env::{define_in, keeps, known, next_env, root_of, Env, Heap, Scope};
use crate::model::error::{outcome, Fault, RuntimeError};
use crate::model::list::{first_of, prepend, rest_of, List};
use crate::model::value::{data, Datum, Symbol, Value};
use vstd::prelude::*;

verus! {

/// The host with the procedures that every program may expect: arithmetic on integers,
/// comparison, and the taking apart and putting together of lists. None of them reads or
/// changes an environment.
pub struct Builtins;

/// The error of a procedure that takes `expected` arguments and was given `args`.
pub open spec fn wrong_count(expected: int, args: Seq<Datum>) -> Result<Datum, Fault> {
    Err(Fault::ArityMismatch { expected, actual: args.len() as int })
}

/// `acc` plus the integers from `from` on, as long as every sum on the way fits.
pub open spec fn sum_from(args: Seq<Datum>, from: int, acc: i64) -> Result<Datum, Fault>
    decreases args.len() - from,
{
    if from < 0 || from >= args.len() {
        Ok(Datum::Integer(acc))
    } else {
        match args[from] {
            Datum::Integer(n) => match acc.checked_add(n) {
                Some(sum) => sum_from(args, from + 1, sum),
                None => Err(Fault::Overflow),
            },
            _ => Err(Fault::TypeMismatch),
        }
    }
}

/// `acc` times the integers from `from` on, as long as every product on the way fits.
pub open spec fn product_from(args: Seq<Datum>, from: int, acc: i64) -> Result<Datum, Fault>
    decreases args.len() - from,
{
    if from < 0 || from >= args.len() {
        Ok(Datum::Integer(acc))
    } else {
        match args[from] {
            Datum::Integer(n) => match acc.checked_mul(n) {
                Some(product) => product_from(args, from + 1, product),
                None => Err(Fault::Overflow),
            },
            _ => Err(Fault::TypeMismatch),
        }
    }
}

/// The first of two integers less the second.
pub open spec fn difference(args: Seq<Datum>) -> Result<Datum, Fault> {
    if args.len() != 2 {
        wrong_count(2, args)
    } else {
        match (args[0], args[1]) {
            (Datum::Integer(a), Datum::Integer(b)) => match a.checked_sub(b) {
                Some(d) => Ok(Datum::Integer(d)),
                None => Err(Fault::Overflow),
            },
            _ => Err(Fault::TypeMismatch),
        }
    }
}

/// Whether the first of two integers is less than the second.
pub open spec fn less(args: Seq<Datum>) -> Result<Datum, Fault> {
    if args.len() != 2 {
        wrong_count(2, args)
    } else {
        match (args[0], args[1]) {
            (Datum::Integer(a), Datum::Integer(b)) => Ok(Datum::Boolean(a < b)),
            _ => Err(Fault::TypeMismatch),
        }
    }
}

/// Whether two values are the same.
pub open spec fn alike(args: Seq<Datum>) -> Result<Datum, Fault> {
    if args.len() != 2 {
        wrong_count(2, args)
    } else {
        Ok(Datum::Boolean(args[0].same(args[1])))
    }
}

/// The first item of a list.
pub open spec fn head_of(args: Seq<Datum>) -> Result<Datum, Fault> {
    if args.len() != 1 {
        wrong_count(1, args)
    } else {
        match args[0] {
            Datum::List(items) => first_of(items),
            _ => Err(Fault::TypeMismatch),
        }
    }
}

/// What follows the first item of a list.
pub open spec fn tail_of(args: Seq<Datum>) -> Result<Datum, Fault> {
    if args.len() != 1 {
        wrong_count(1, args)
    } else {
        match args[0] {
            Datum::List(items) => Ok(Datum::List(rest_of(items))),
            _ => Err(Fault::TypeMismatch),
        }
    }
}

/// The list that begins with a value and goes on with a list.
pub open spec fn joined(args: Seq<Datum>) -> Result<Datum, Fault> {
    if args.len() != 2 {
        wrong_count(2, args)
    } else {
        match args[1] {
            Datum::List(items) => Ok(Datum::List(prepend(args[0], items))),
            _ => Err(Fault::TypeMismatch),
        }
    }
}

/// What the built-in procedure of that name makes of the arguments. A name that is none
/// of `+ * - < = car cdr cons list` cannot be called.
pub open spec fn builtin_result(name: Seq<char>, args: Seq<Datum>) -> Result<Datum, Fault> {
    if name == "+"@ {
        sum_from(args, 0, 0)
    } else if name == "*"@ {
        product_from(args, 0, 1)
    } else if name == "-"@ {
        difference(args)
    } else if name == "<"@ {
        less(args)
    } else if name == "="@ {
        alike(args)
    } else if name == "car"@ {
        head_of(args)
    } else if name == "cdr"@ {
        tail_of(args)
    } else if name == "cons"@ {
        joined(args)
    } else if name == "list"@ {
        Ok(Datum::List(args))
    } else {
        Err(Fault::NotCallable)
    }
}

/// The error of a procedure that takes `expected` arguments and was given `args`.
fn wrong_count_of(expected: usize, args: &Vec<Value>) -> (r: Result<Value, RuntimeError>)
    ensures
        outcome(r) == wrong_count(expected as int, data(args@)),
{
    Err(RuntimeError::ArityMismatch { expected, actual: args.len() })
}

/// `+`: the sum of the arguments.
fn add_all(args: &Vec<Value>) -> (r: Result<Value, RuntimeError>)
    ensures
        outcome(r) == sum_from(data(args@), 0, 0),
{
    let mut acc: i64 = 0;
    let mut i: usize = 0;
    while i < args.len()
        invariant
            sum_from(data(args@), 0, 0) == sum_from(data(args@), i as int, acc),
        decreases args.len() - i,
    {
        match &args[i] {
            Value::Integer(n) => match acc.checked_add(*n) {
                Some(sum) => {
                    acc = sum;
                },
                None => {
                    return Err(RuntimeError::Overflow);
                },
            },
            _ => {
                return Err(RuntimeError::TypeMismatch);
            },
        }
        i += 1;
    }
    Ok(Value::Integer(acc))
}

/// `*`: the product of the arguments.
fn multiply_all(args: &Vec<Value>) -> (r: Result<Value, RuntimeError>)
    ensures
        outcome(r) == product_from(data(args@), 0, 1),
{
    let mut acc: i64 = 1;
    let mut i: usize = 0;
    while i < args.len()
        invariant
            product_from(data(args@), 0, 1) == product_from(data(args@), i as int, acc),
        decreases args.len() - i,
    {
        match &args[i] {
            Value::Integer(n) => match acc.checked_mul(*n) {
                Some(product) => {
                    acc = product;
                },
                None => {
                    return Err(RuntimeError::Overflow);
                },
            },
            _ => {
                return Err(RuntimeError::TypeMismatch);
            },
        }
        i += 1;
    }
    Ok(Value::Integer(acc))
}

/// `-`: the first argument less the second.
fn subtract(args: &Vec<Value>) -> (r: Result<Value, RuntimeError>)
    ensures
        outcome(r) == difference(data(args@)),
{
    if args.len() != 2 {
        return wrong_count_of(2, args);
    }
    match (&args[0], &args[1]) {
        (Value::Integer(a), Value::Integer(b)) => match a.checked_sub(*b) {
            Some(d) => Ok(Value::Integer(d)),
            None => Err(RuntimeError::Overflow),
        },
        _ => Err(RuntimeError::TypeMismatch),
    }
}

/// `<`: whether the first argument is less than the second.
fn is_less(args: &Vec<Value>) -> (r: Result<Value, RuntimeError>)
    ensures
        outcome(r) == less(data(args@)),
{
    if args.len() != 2 {
        return wrong_count_of(2, args);
    }
    match (&args[0], &args[1]) {
        (Value::Integer(a), Value::Integer(b)) => Ok(Value::Boolean(*a < *b)),
        _ => Err(RuntimeError::TypeMismatch),
    }
}

/// `=`: whether the two arguments are the same.
fn is_alike(args: &Vec<Value>) -> (r: Result<Value, RuntimeError>)
    ensures
        outcome(r) == alike(data(args@)),
{
    if args.len() != 2 {
        return wrong_count_of(2, args);
    }
    Ok(Value::Boolean(args[0].equals(&args[1])))
}

/// `car`: the first item of the argument.
fn take_head(args: &Vec<Value>) -> (r: Result<Value, RuntimeError>)
    ensures
        outcome(r) == head_of(data(args@)),
{
    if args.len() != 1 {
        return wrong_count_of(1, args);
    }
    match &args[0] {
        Value::List(list) => list.car(),
        _ => Err(RuntimeError::TypeMismatch),
    }
}

/// `cdr`: what follows the first item of the argument.
fn take_tail(args: &Vec<Value>) -> (r: Result<Value, RuntimeError>)
    ensures
        outcome(r) == tail_of(data(args@)),
{
    if args.len() != 1 {
        return wrong_count_of(1, args);
    }
    match &args[0] {
        Value::List(list) => Ok(Value::List(list.cdr())),
        _ => Err(RuntimeError::TypeMismatch),
    }
}

/// `cons`: the list that begins with the first argument and goes on with the second.
fn join(args: &Vec<Value>) -> (r: Result<Value, RuntimeError>)
    ensures
        outcome(r) == joined(data(args@)),
{
    if args.len() != 2 {
        return wrong_count_of(2, args);
    }
    match &args[1] {
        Value::List(list) => Ok(Value::List(list.cons(args[0].clone()))),
        _ => Err(RuntimeError::TypeMismatch),
    }
}

/// `list`: the list of the arguments.
fn list_of(args: &Vec<Value>) -> (r: Value)
    ensures
        r@ == Datum::List(data(args@)),
{
    let mut list = List::nil();
    let mut i: usize = args.len();
    while i > 0
        invariant
            i <= args.len(),
            list@ == data(args@).skip(i as int),
        decreases i,
    {
        i -= 1;
        list = list.cons(args[i].clone());
    }
    assert(data(args@).skip(0) =~= data(args@));
    Value::List(list)
}

impl Host for Builtins {
    open spec fn result_of(
        &self,
        scopes: Seq<Scope>,
        env: Env,
        name: Seq<char>,
        args: Seq<Datum>,
    ) -> Step {
        (scopes, builtin_result(name, args))
    }

    fn invoke(&self, heap: &mut Heap, env: Env, name: &Symbol, args: &Vec<Value>) -> (r: Result<
        Value,
        RuntimeError,
    >) {
        if name.spells("+") {
            add_all(args)
        } else if name.spells("*") {
            multiply_all(args)
        } else if name.spells("-") {
            subtract(args)
        } else if name.spells("<") {
            is_less(args)
        } else if name.spells("=") {
            is_alike(args)
        } else if name.spells("car") {
            take_head(args)
        } else if name.spells("cdr") {
            take_tail(args)
        } else if name.spells("cons") {
            join(args)
        } else if name.spells("list") {
            Ok(list_of(args))
        } else {
            Err(RuntimeError::NotCallable)
        }
    }
}

/// The environments after `env` has bound the name `word` to the primitive of that name.
pub open spec fn with_primitive(scopes: Seq<Scope>, env: Env, word: Seq<char>) -> Seq<Scope> {
    define_in(scopes, env, word, Datum::Primitive(word))
}

/// The environments with one more, which has no parent, lives in the heap with the
/// identity `heap` and binds the name of each built-in procedure to the primitive of that
/// name.
pub open spec fn with_default_env(scopes: Seq<Scope>, heap: usize) -> Seq<Scope> {
    let env = next_env(scopes, heap);
    let s0 = root_of(scopes, heap);
    let s1 = with_primitive(s0, env, "+"@);
    let s2 = with_primitive(s1, env, "*"@);
    let s3 = with_primitive(s2, env, "-"@);
    let s4 = with_primitive(s3, env, "<"@);
    let s5 = with_primitive(s4, env, "="@);
    let s6 = with_primitive(s5, env, "car"@);
    let s7 = with_primitive(s6, env, "cdr"@);
    let s8 = with_primitive(s7, env, "cons"@);
    with_primitive(s8, env, "list"@)
}

/// Binds the name `word` in `env` to the primitive of that name.
fn install(heap: &mut Heap, env: Env, word: &str)
    requires
        known(old(heap)@, env),
    ensures
        final(heap)@ == with_primitive(old(heap)@, env, word@),
        final(heap).identity() == old(heap).identity(),
        known(final(heap)@, env),
        keeps(old(heap)@, final(heap)@),
{
    heap.define(env, Symbol::new(word), Value::Primitive(Symbol::new(word)));
}

/// Creates the environment in which programs start: it has no parent and binds the name
/// of each built-in procedure.
pub fn default_env(heap: &mut Heap) -> (env: Env)
    ensures
        env == next_env(old(heap)@, old(heap).identity()),
        env.index() == old(heap)@.len(),
        env.heap() == old(heap).identity(),
        final(heap)@ == with_default_env(old(heap)@, old(heap).identity()),
        final(heap).identity() == old(heap).identity(),
        known(final(heap)@, env),
        keeps(old(heap)@, final(heap)@),
{
    let env = heap.root();
    install(heap, env, "+");
    install(heap, env, "*");
    install(heap, env, "-");
    install(heap, env, "<");
    install(heap, env, "=");
    install(heap, env, "car");
    install(heap, env, "cdr");
    install(heap, env, "cons");
    install(heap, env, "list");
    env
}

} // verus!
