//! The errors of an evaluation.

use super::text::{decimal, write_digits};
use super::value::{Datum, Symbol, Value};
use vstd::prelude::*;
use vstd::string::StringExecFns;

verus! {

/// The mathematical value that a `RuntimeError` stands for.
pub enum Fault {
    EmptyListAccess,
    UnboundSymbol(Seq<char>),
    ArityMismatch { expected: int, actual: int },
    NotCallable,
    MalformedSpecialForm(Seq<char>),
    TypeMismatch,
    Overflow,
    DepthExceeded,
}

impl Fault {
    /// The error in words, with the name or the numbers that it is about.
    pub open spec fn message(self) -> Seq<char> {
        match self {
            Fault::EmptyListAccess => "Attempted to apply car on nil"@,
            Fault::UnboundSymbol(name) => "\""@ + name + "\" is not defined"@,
            Fault::ArityMismatch { expected, actual } => "expected "@ + decimal(expected)
                + " arguments, got "@ + decimal(actual),
            Fault::NotCallable => "value is not callable"@,
            Fault::MalformedSpecialForm(keyword) => "malformed special form: "@ + keyword,
            Fault::TypeMismatch => "argument has the wrong type"@,
            Fault::Overflow => "integer overflow"@,
            Fault::DepthExceeded => "evaluation nests too deeply"@,
        }
    }
}

/// Why an evaluation stopped without a value.
#[derive(Debug, PartialEq, Eq)]
pub enum RuntimeError {
    /// The first item of the empty list was asked for, or the empty list was evaluated.
    EmptyListAccess,
    /// No frame on the way to the outermost environment binds the symbol.
    UnboundSymbol(Symbol),
    /// A procedure was given another number of arguments than it takes.
    ArityMismatch { expected: usize, actual: usize },
    /// What stands at the head of an application is no procedure that can be called here.
    NotCallable,
    /// A special form, named by its keyword, does not have the shape it must have.
    MalformedSpecialForm(Symbol),
    /// A primitive was given an argument of a kind it does not work on.
    TypeMismatch,
    /// The result of an arithmetic primitive does not fit in an integer of the language.
    Overflow,
    /// The evaluation nests deeper than the limit it was given.
    DepthExceeded,
}

impl View for RuntimeError {
    type V = Fault;

    open spec fn view(&self) -> Fault {
        match self {
            RuntimeError::EmptyListAccess => Fault::EmptyListAccess,
            RuntimeError::UnboundSymbol(name) => Fault::UnboundSymbol(name@),
            RuntimeError::ArityMismatch { expected, actual } => Fault::ArityMismatch {
                expected: *expected as int,
                actual: *actual as int,
            },
            RuntimeError::NotCallable => Fault::NotCallable,
            RuntimeError::MalformedSpecialForm(keyword) => Fault::MalformedSpecialForm(keyword@),
            RuntimeError::TypeMismatch => Fault::TypeMismatch,
            RuntimeError::Overflow => Fault::Overflow,
            RuntimeError::DepthExceeded => Fault::DepthExceeded,
        }
    }
}

impl RuntimeError {
    /// The error in words, with the name or the numbers that it is about.
    pub fn message(&self) -> (r: String)
        ensures
            r@ == self@.message(),
    {
        match self {
            RuntimeError::EmptyListAccess => String::from_str("Attempted to apply car on nil"),
            RuntimeError::UnboundSymbol(name) => {
                let mut out = String::from_str("\"");
                out.append(name.0.as_str());
                out.append("\" is not defined");
                out
            },
            RuntimeError::ArityMismatch { expected, actual } => {
                let mut out = String::from_str("expected ");
                write_digits(&mut out, *expected as u64);
                out.append(" arguments, got ");
                write_digits(&mut out, *actual as u64);
                out
            },
            RuntimeError::NotCallable => String::from_str("value is not callable"),
            RuntimeError::MalformedSpecialForm(keyword) => {
                let mut out = String::from_str("malformed special form: ");
                out.append(keyword.0.as_str());
                out
            },
            RuntimeError::TypeMismatch => String::from_str("argument has the wrong type"),
            RuntimeError::Overflow => String::from_str("integer overflow"),
            RuntimeError::DepthExceeded => String::from_str("evaluation nests too deeply"),
        }
    }
}

impl Clone for RuntimeError {
    fn clone(&self) -> (r: Self)
        ensures
            r@ == self@,
    {
        match self {
            RuntimeError::EmptyListAccess => RuntimeError::EmptyListAccess,
            RuntimeError::UnboundSymbol(name) => RuntimeError::UnboundSymbol(name.clone()),
            RuntimeError::ArityMismatch { expected, actual } => RuntimeError::ArityMismatch {
                expected: *expected,
                actual: *actual,
            },
            RuntimeError::NotCallable => RuntimeError::NotCallable,
            RuntimeError::MalformedSpecialForm(keyword) => RuntimeError::MalformedSpecialForm(
                keyword.clone(),
            ),
            RuntimeError::TypeMismatch => RuntimeError::TypeMismatch,
            RuntimeError::Overflow => RuntimeError::Overflow,
            RuntimeError::DepthExceeded => RuntimeError::DepthExceeded,
        }
    }
}

/// What the result of an operation stands for.
pub open spec fn outcome(r: Result<Value, RuntimeError>) -> Result<Datum, Fault> {
    match r {
        Ok(v) => Ok(v@),
        Err(e) => Err(e@),
    }
}

} // verus!
