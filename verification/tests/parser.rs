use rust_lisp::default_environment::{default_env, Builtins};
use rust_lisp::interpreter::eval_block;
use rust_lisp::model::{Heap, List, Symbol, Value};
use rust_lisp::parser::{atom, chars_of, number, parse, scan, text_of, ParseError, Stop};

fn read_one(text: &str) -> Value {
    let mut forms = parse(text);
    assert_eq!(forms.len(), 1);
    forms.pop().unwrap().unwrap()
}

fn shown(text: &str) -> Vec<String> {
    parse(text)
        .into_iter()
        .map(|form| match form {
            Ok(value) => value.to_string(),
            Err(error) => format!("{:?}", error),
        })
        .collect()
}

#[test]
fn atoms_are_read() {
    assert_eq!(read_one("12"), Value::Integer(12));
    assert_eq!(read_one("-12"), Value::Integer(-12));
    assert_eq!(read_one("0"), Value::Integer(0));
    assert_eq!(read_one("007"), Value::Integer(7));
    assert_eq!(read_one("9223372036854775807"), Value::Integer(i64::MAX));
    assert_eq!(read_one("-9223372036854775808"), Value::Integer(i64::MIN));
    assert_eq!(read_one("T"), Value::Boolean(true));
    assert_eq!(read_one("F"), Value::Boolean(false));
    assert_eq!(read_one("NIL"), Value::Nil);
    assert_eq!(read_one("car"), Value::Symbol(Symbol::new("car")));
    assert_eq!(read_one("+"), Value::Symbol(Symbol::new("+")));
    assert_eq!(read_one("-"), Value::Symbol(Symbol::new("-")));
    assert_eq!(read_one("\"a (b) ; c\""), Value::String(String::from("a (b) ; c")));
    assert_eq!(read_one("\"\""), Value::String(String::new()));
    assert_eq!(read_one("\"gr\u{fc}\u{df}e\""), Value::String(String::from("gr\u{fc}\u{df}e")));
}

#[test]
fn digits_that_do_not_fit_are_a_name() {
    assert_eq!(
        read_one("9223372036854775808"),
        Value::Symbol(Symbol::new("9223372036854775808"))
    );
    assert_eq!(
        read_one("-9223372036854775809"),
        Value::Symbol(Symbol::new("-9223372036854775809"))
    );
    assert_eq!(
        read_one("123456789012345678901234567890"),
        Value::Symbol(Symbol::new("123456789012345678901234567890"))
    );
    assert_eq!(read_one("12a"), Value::Symbol(Symbol::new("12a")));
    assert_eq!(read_one("--1"), Value::Symbol(Symbol::new("--1")));
}

#[test]
fn lists_are_read() {
    assert_eq!(shown("(+ 1 (* 2 3))"), vec!["(+ 1 (* 2 3))"]);
    assert_eq!(shown("()"), vec!["NIL"]);
    assert_eq!(shown("(())"), vec!["(NIL)"]);
    assert_eq!(shown("  ( a\t(b\n c)\r\n)  "), vec!["(a (b c))"]);
    assert_eq!(shown("(a\"b\"c)"), vec!["(a \"b\" c)"]);
    assert_eq!(read_one("()"), Value::List(List::nil()));
}

#[test]
fn every_top_level_form_is_read() {
    assert_eq!(shown("(define x 5) (+ x 3)"), vec!["(define x 5)", "(+ x 3)"]);
    assert_eq!(shown("1 two \"three\""), vec!["1", "two", "\"three\""]);
    assert_eq!(shown(""), Vec::<String>::new());
    assert_eq!(shown(" \n "), Vec::<String>::new());
}

#[test]
fn comments_go_to_the_end_of_the_line() {
    assert_eq!(shown("1 ; one (\n2"), vec!["1", "2"]);
    assert_eq!(shown("(a ; b)\n c)"), vec!["(a c)"]);
    assert_eq!(shown("; nothing"), Vec::<String>::new());
    assert_eq!(shown("a;b"), vec!["a"]);
}

#[test]
fn errors_stand_in_the_place_of_the_form() {
    assert_eq!(parse(")"), vec![Err(ParseError::UnexpectedClose { at: 0 })]);
    assert_eq!(
        parse("1 ) 2"),
        vec![Ok(Value::Integer(1)), Err(ParseError::UnexpectedClose { at: 2 }), Ok(Value::Integer(2))]
    );
    assert_eq!(parse("(a (b"), vec![Err(ParseError::UnclosedList { open: 2 })]);
    assert_eq!(
        parse("1 (a"),
        vec![Ok(Value::Integer(1)), Err(ParseError::UnclosedList { open: 1 })]
    );
    assert_eq!(
        parse("1 \"abc"),
        vec![Ok(Value::Integer(1)), Err(ParseError::UnterminatedString { at: 2 })]
    );
    assert_eq!(parse("(a \"abc"), vec![Err(ParseError::UnterminatedString { at: 3 })]);
}

#[test]
fn the_pieces_of_the_reader() {
    let chars = chars_of("ab \"c\" 42)");
    assert_eq!(chars.len(), 10);
    assert_eq!(text_of(&chars, 0, 2), "ab");
    assert_eq!(text_of(&chars, 4, 4), "");
    assert_eq!(scan(&chars, 0, Stop::Token), 2);
    assert_eq!(scan(&chars, 4, Stop::Quote), 5);
    assert_eq!(scan(&chars, 0, Stop::Line), 10);
    assert_eq!(scan(&chars, 7, Stop::Token), 9);
    assert_eq!(number(&chars, 7, 9), Some(42));
    assert_eq!(number(&chars, 0, 2), None);
    assert_eq!(atom(&chars, 7, 9), Value::Integer(42));
    assert_eq!(atom(&chars, 0, 2), Value::Symbol(Symbol::new("ab")));
}

#[test]
fn what_is_read_can_be_run() {
    let mut heap = Heap::new();
    let env = default_env(&mut heap);
    let forms: Vec<Value> = parse("(define x 5) (+ x 3)").into_iter().filter_map(|f| f.ok()).collect();
    assert_eq!(eval_block(&Builtins, &mut heap, env, &forms, 100), Ok(Value::Integer(8)));
    let forms: Vec<Value> = parse("((lambda (n) (* n n)) 4)").into_iter().filter_map(|f| f.ok()).collect();
    assert_eq!(eval_block(&Builtins, &mut heap, env, &forms, 100), Ok(Value::Integer(16)));
    let forms: Vec<Value> = parse("(car (quote ()))").into_iter().filter_map(|f| f.ok()).collect();
    assert_eq!(
        eval_block(&Builtins, &mut heap, env, &forms, 100),
        Err(rust_lisp::model::RuntimeError::EmptyListAccess)
    );
}
