//! Values, and the mathematical values that they stand for.

use super::env::Env;
use super::hash::{digest_of_text, feed, mixed};
use super::lambda::Lambda;
use super::list::List;
use super::text::write_decimal;
use vstd::prelude::*;
use vstd::std_specs::cmp::PartialEqSpecImpl;
use vstd::string::StringExecFns;
use vstd::utf8::{encode_utf8, encode_utf8_decode_utf8};

verus! {

/// The mathematical value that a `Value` stands for.
pub enum Datum {
    Nil,
    Boolean(bool),
    Integer(i64),
    Text(Seq<char>),
    Symbol(Seq<char>),
    List(Seq<Datum>),
    Lambda { closure: Env, params: Seq<Seq<char>>, body: Box<Datum> },
    Primitive(Seq<char>),
}

impl Datum {
    /// Equality as the interpreter decides it. Two lists are the same when both are empty or
    /// both are non-empty with the same first item; what follows the first item is not
    /// looked at. Two lambdas are the same when they close over the same environment, name
    /// the same parameters and have the same body.
    pub open spec fn same(self, other: Datum) -> bool
        decreases self,
    {
        match self {
            Datum::Nil => other is Nil,
            Datum::Boolean(a) => other matches Datum::Boolean(b) && a == b,
            Datum::Integer(a) => other matches Datum::Integer(b) && a == b,
            Datum::Text(a) => other matches Datum::Text(b) && a == b,
            Datum::Symbol(a) => other matches Datum::Symbol(b) && a == b,
            Datum::Primitive(a) => other matches Datum::Primitive(b) && a == b,
            Datum::List(a) => other matches Datum::List(b) && if a.len() == 0 || b.len() == 0 {
                a.len() == 0 && b.len() == 0
            } else {
                a[0].same(b[0])
            },
            Datum::Lambda { closure, params, body } => other matches Datum::Lambda {
                closure: closure2,
                params: params2,
                body: body2,
            } && closure == closure2 && params == params2 && body.same(*body2),
        }
    }
}

/// A name, as it is written in a program.
#[derive(Debug, Hash)]
pub struct Symbol(pub String);

impl View for Symbol {
    type V = Seq<char>;

    open spec fn view(&self) -> Seq<char> {
        self.0@
    }
}

/// Decides whether two texts hold the same characters in the same order, by their bytes
/// in UTF-8.
pub fn same_text(a: &str, b: &str) -> (r: bool)
    ensures
        r == (a@ == b@),
{
    let left = a.as_bytes();
    let right = b.as_bytes();
    proof {
        encode_utf8_decode_utf8(a@);
        encode_utf8_decode_utf8(b@);
    }
    if left.len() != right.len() {
        return false;
    }
    let mut i: usize = 0;
    while i < left.len()
        invariant
            i <= left.len(),
            left.len() == right.len(),
            left@ == encode_utf8(a@),
            right@ == encode_utf8(b@),
            forall|j: int| 0 <= j < i ==> left@[j] == right@[j],
        decreases left.len() - i,
    {
        if left[i] != right[i] {
            return false;
        }
        i += 1;
    }
    assert(left@ =~= right@);
    true
}

impl Symbol {
    /// The symbol that spells `word`.
    pub fn new(word: &str) -> (r: Symbol)
        ensures
            r@ == word@,
    {
        Symbol(String::from_str(word))
    }

    /// Whether the symbol spells `word`.
    pub fn spells(&self, word: &str) -> (r: bool)
        ensures
            r == (self@ == word@),
    {
        same_text(self.0.as_str(), word)
    }
}

impl Clone for Symbol {
    fn clone(&self) -> (r: Self)
        ensures
            r == *self,
    {
        Symbol(self.0.clone())
    }
}

impl PartialEq for Symbol {
    fn eq(&self, other: &Self) -> (r: bool) {
        self.0 == other.0
    }
}

impl Eq for Symbol {}

impl PartialEqSpecImpl for Symbol {
    open spec fn obeys_eq_spec() -> bool {
        true
    }

    open spec fn eq_spec(&self, other: &Self) -> bool {
        self@ == other@
    }
}

/// The names that a sequence of symbols spells.
pub open spec fn names(symbols: Seq<Symbol>) -> Seq<Seq<char>> {
    symbols.map_values(|s: Symbol| s@)
}

/// The values that a sequence of `Value`s stands for.
pub open spec fn data(values: Seq<Value>) -> Seq<Datum> {
    values.map_values(|v: Value| v@)
}

/// A value of the language.
#[derive(Debug)]
pub enum Value {
    Nil,
    Boolean(bool),
    Integer(i64),
    String(String),
    Symbol(Symbol),
    List(List),
    Lambda(Lambda),
    Primitive(Symbol),
}

impl Value {
    /// What this value stands for.
    pub open spec fn datum(&self) -> Datum
        decreases self,
    {
        match self {
            Value::Nil => Datum::Nil,
            Value::Boolean(b) => Datum::Boolean(*b),
            Value::Integer(n) => Datum::Integer(*n),
            Value::String(s) => Datum::Text(s@),
            Value::Symbol(s) => Datum::Symbol(s@),
            Value::List(l) => Datum::List(l.items()),
            Value::Lambda(f) => f.datum(),
            Value::Primitive(name) => Datum::Primitive(name@),
        }
    }
}

impl View for Value {
    type V = Datum;

    open spec fn view(&self) -> Datum {
        self.datum()
    }
}

impl Clone for Value {
    fn clone(&self) -> (r: Self)
        ensures
            r@ == self@,
    {
        match self {
            Value::Nil => Value::Nil,
            Value::Boolean(b) => Value::Boolean(*b),
            Value::Integer(n) => Value::Integer(*n),
            Value::String(s) => Value::String(s.clone()),
            Value::Symbol(s) => Value::Symbol(s.clone()),
            Value::List(l) => Value::List(l.clone()),
            Value::Lambda(f) => Value::Lambda(f.clone()),
            Value::Primitive(name) => Value::Primitive(name.clone()),
        }
    }
}

impl Value {
    /// Decides `self@.same(other@)`.
    pub fn equals(&self, other: &Value) -> (r: bool)
        ensures
            r == self@.same(other@),
        decreases self,
    {
        match (self, other) {
            (Value::Nil, Value::Nil) => true,
            (Value::Boolean(a), Value::Boolean(b)) => *a == *b,
            (Value::Integer(a), Value::Integer(b)) => *a == *b,
            (Value::String(a), Value::String(b)) => *a == *b,
            (Value::Symbol(a), Value::Symbol(b)) => *a == *b,
            (Value::Primitive(a), Value::Primitive(b)) => *a == *b,
            (Value::List(a), Value::List(b)) => a.equals(b),
            (Value::Lambda(a), Value::Lambda(b)) => a.equals(b),
            _ => false,
        }
    }
}

impl Value {
    /// Writes the value out behind what `out` holds.
    pub fn write_to(&self, out: &mut String)
        ensures
            final(out)@ == old(out)@ + self@.text(),
        decreases self, 1nat,
    {
        match self {
            Value::Nil => {
                out.append("NIL");
            },
            Value::Boolean(b) => {
                if *b {
                    out.append("T");
                } else {
                    out.append("F");
                }
            },
            Value::Integer(n) => {
                write_decimal(out, *n);
            },
            Value::String(s) => {
                out.append("\"");
                out.append(s.as_str());
                out.append("\"");
            },
            Value::Symbol(word) => {
                out.append(word.0.as_str());
            },
            Value::List(list) => {
                list.write_to(out);
            },
            Value::Lambda(lambda) => {
                out.append("<func:(lambda ");
                lambda.write_to(out);
                out.append(")>");
            },
            Value::Primitive(name) => {
                out.append("<primitive:");
                out.append(name.0.as_str());
                out.append(">");
            },
        }
    }

    /// Writes the value out behind what `out` holds, a list with items without the round
    /// brackets around it.
    pub fn write_bare(&self, out: &mut String)
        ensures
            final(out)@ == old(out)@ + self@.bare_text(),
        decreases self, 2nat,
    {
        match self {
            Value::List(list) => {
                if list.is_empty() {
                    self.write_to(out);
                } else {
                    list.write_items(out);
                }
            },
            _ => {
                self.write_to(out);
            },
        }
    }

    /// The hash of the value.
    pub fn hash_code(&self) -> (r: u64)
        ensures
            r == self@.digest(),
        decreases self,
    {
        match self {
            Value::Nil => 0,
            Value::Boolean(b) => if *b {
                1
            } else {
                2
            },
            Value::Integer(n) => if *n >= 0 {
                mixed(3, *n as u64)
            } else {
                mixed(4, (-(*n + 1)) as u64)
            },
            Value::String(s) => mixed(5, digest_of_text(s.as_str())),
            Value::Symbol(word) => mixed(6, digest_of_text(word.0.as_str())),
            Value::Primitive(name) => mixed(7, digest_of_text(name.0.as_str())),
            Value::List(list) => list.hash_code(),
            Value::Lambda(lambda) => lambda.hash_code(),
        }
    }

    /// The value, written out.
    pub fn to_string(&self) -> (r: String)
        ensures
            r@ == self@.text(),
    {
        let mut out = String::new();
        self.write_to(&mut out);
        out
    }
}

impl PartialEq for Value {
    fn eq(&self, other: &Self) -> (r: bool) {
        self.equals(other)
    }
}

impl Eq for Value {}

impl std::hash::Hash for Value {
    fn hash<H: std::hash::Hasher>(&self, state: &mut H) {
        feed(state, self.hash_code());
    }
}

impl PartialEqSpecImpl for Value {
    open spec fn obeys_eq_spec() -> bool {
        true
    }

    open spec fn eq_spec(&self, other: &Self) -> bool {
        self@.same(other@)
    }
}

} // verus!
