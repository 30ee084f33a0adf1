//! The evaluator: what a form comes to in an environment.

use crate::model::env::{
    child_of, define_in, keeps, known, law_set_is_seen_by_all, lemma_env_at, lemma_owner_binds,
    lemma_owner_reads_older_only, lookup_in, next_env, owner_of, set_in, Env, Heap, Scope,
};
use crate::model::error::{outcome, Fault, RuntimeError};
use crate::model::lambda::Lambda;
use crate::model::value::{data, names, Datum, Symbol, Value};
use std::sync::Arc;
use vstd::prelude::*;

verus! {

/// The environments after a step of evaluation, and what the step came to.
pub type Step = (Seq<Scope>, Result<Datum, Fault>);

/// The procedures that the host of the interpreter offers to programs. A program holds
/// such a procedure as a `Value::Primitive` with the procedure's name; the interpreter
/// hands the name, the evaluated arguments and the environment of the call to `invoke`.
pub trait Host {
    /// What the procedure of that name makes of the arguments when it is called in `env`,
    /// and the environments as it leaves them. A host that says nothing else has no
    /// procedure at all.
    open spec fn result_of(
        &self,
        scopes: Seq<Scope>,
        env: Env,
        name: Seq<char>,
        args: Seq<Datum>,
    ) -> Step {
        (scopes, Err(Fault::NotCallable))
    }

    /// Runs the procedure of that name on the arguments. The procedure may read and
    /// change the environments; it takes none away and leaves the heap its identity.
    fn invoke(&self, heap: &mut Heap, env: Env, name: &Symbol, args: &Vec<Value>) -> (r: Result<
        Value,
        RuntimeError,
    >)
        requires
            known(old(heap)@, env),
        ensures
            (final(heap)@, outcome(r)) == self.result_of(old(heap)@, env, name@, data(args@)),
            keeps(old(heap)@, final(heap)@),
        final(heap).identity() == old(heap).identity(),
    ;
}

/// The reserved words. A list whose first item is one of them as a symbol is a special
/// form and no application.
#[derive(Clone, Copy, Debug, PartialEq, Eq, Structural)]
pub enum Keyword {
    Quote,
    If,
    Define,
    Assign,
    Lambda,
    Begin,
    Let,
}

/// The keyword that a word is, if it is one.
pub open spec fn keyword_of(word: Seq<char>) -> Option<Keyword> {
    if word == "quote"@ {
        Some(Keyword::Quote)
    } else if word == "if"@ {
        Some(Keyword::If)
    } else if word == "define"@ {
        Some(Keyword::Define)
    } else if word == "set"@ {
        Some(Keyword::Assign)
    } else if word == "lambda"@ {
        Some(Keyword::Lambda)
    } else if word == "begin"@ {
        Some(Keyword::Begin)
    } else if word == "let"@ {
        Some(Keyword::Let)
    } else {
        None
    }
}

/// The name that a symbol spells; the empty name for what is no symbol.
pub open spec fn word_of(d: Datum) -> Seq<char> {
    match d {
        Datum::Symbol(word) => word,
        _ => Seq::empty(),
    }
}

/// The keyword at the head of a special form.
pub open spec fn special_form(head: Datum) -> Option<Keyword> {
    match head {
        Datum::Symbol(word) => keyword_of(word),
        _ => None,
    }
}

/// Whether a condition counts as met: everything but `false`, `Nil` and the empty list.
pub open spec fn truthy(d: Datum) -> bool {
    match d {
        Datum::Nil => false,
        Datum::Boolean(b) => b,
        Datum::List(items) => items.len() > 0,
        _ => true,
    }
}

/// Whether every item is a symbol.
pub open spec fn all_symbols(items: Seq<Datum>) -> bool {
    forall|i: int| 0 <= i < items.len() ==> #[trigger] items[i] is Symbol
}

/// The names that the symbols among the items spell, each in the place of its item.
pub open spec fn words(items: Seq<Datum>) -> Seq<Seq<char>> {
    items.map_values(|d: Datum| word_of(d))
}

/// Whether `d` is a binding of `let`: a list of a symbol and an expression.
pub open spec fn is_binding(d: Datum) -> bool {
    d matches Datum::List(pair) && pair.len() == 2 && pair[0] is Symbol
}

/// Whether every item is a binding of `let`.
pub open spec fn all_bindings(items: Seq<Datum>) -> bool {
    forall|i: int| 0 <= i < items.len() ==> #[trigger] is_binding(items[i])
}

/// The name that a binding of `let` binds.
pub open spec fn binding_name(d: Datum) -> Seq<char> {
    match d {
        Datum::List(pair) => word_of(pair[0]),
        _ => Seq::empty(),
    }
}

/// The expression whose value a binding of `let` binds the name to.
pub open spec fn binding_expr(d: Datum) -> Datum {
    match d {
        Datum::List(pair) => pair[1],
        _ => Datum::Nil,
    }
}

/// How a special form that does not have its shape ends: nothing changes, and the
/// error names the keyword.
pub open spec fn malformed(scopes: Seq<Scope>, items: Seq<Datum>) -> Step {
    (scopes, Err(Fault::MalformedSpecialForm(word_of(items[0]))))
}

/// The environments after `frame` has bound each parameter from `from` on to the argument
/// in its place, in their order.
pub open spec fn bind_all(
    scopes: Seq<Scope>,
    frame: Env,
    params: Seq<Seq<char>>,
    args: Seq<Datum>,
    from: int,
) -> Seq<Scope>
    decreases params.len() - from,
{
    if from < 0 || from >= params.len() {
        scopes
    } else {
        bind_all(
            define_in(scopes, frame, params[from], args[from]),
            frame,
            params,
            args,
            from + 1,
        )
    }
}

/// What evaluating `form` in `env` comes to, where lists may nest `fuel` deep.
///
/// A symbol is looked up. A list is a special form or an application; the empty list is
/// an error. Every other value is its own result.
pub open spec fn eval_form<H: Host>(
    host: &H,
    scopes: Seq<Scope>,
    env: Env,
    form: Datum,
    fuel: nat,
) -> Step
    decreases fuel, 0nat, 0nat,
{
    match form {
        Datum::Symbol(name) => (scopes, lookup_in(scopes, env, name)),
        Datum::List(items) => {
            if items.len() == 0 {
                (scopes, Err(Fault::EmptyListAccess))
            } else if fuel == 0 {
                (scopes, Err(Fault::DepthExceeded))
            } else {
                match special_form(items[0]) {
                    Some(Keyword::Quote) => form_quote(scopes, items),
                    Some(Keyword::If) => form_if(host, scopes, env, items, (fuel - 1) as nat),
                    Some(Keyword::Define) => form_define(
                        host,
                        scopes,
                        env,
                        items,
                        (fuel - 1) as nat,
                    ),
                    Some(Keyword::Assign) => form_set(host, scopes, env, items, (fuel - 1) as nat),
                    Some(Keyword::Lambda) => form_lambda(scopes, env, items),
                    Some(Keyword::Begin) => sequence(
                        host,
                        scopes,
                        env,
                        items,
                        1,
                        (fuel - 1) as nat,
                        Datum::Nil,
                    ),
                    Some(Keyword::Let) => form_let(host, scopes, env, items, (fuel - 1) as nat),
                    None => form_call(host, scopes, env, items, (fuel - 1) as nat),
                }
            }
        },
        _ => (scopes, Ok(form)),
    }
}

/// `(quote x)` is `x`, not evaluated.
pub open spec fn form_quote(scopes: Seq<Scope>, items: Seq<Datum>) -> Step {
    if items.len() == 2 {
        (scopes, Ok(items[1]))
    } else {
        malformed(scopes, items)
    }
}

/// `(if c a)` and `(if c a b)`: `a` where `c` is met, else `b`, or `Nil` without a `b`.
pub open spec fn form_if<H: Host>(
    host: &H,
    scopes: Seq<Scope>,
    env: Env,
    items: Seq<Datum>,
    fuel: nat,
) -> Step
    decreases fuel, 2nat, 0nat,
{
    if items.len() == 3 || items.len() == 4 {
        let cond = eval_form(host, scopes, env, items[1], fuel);
        match cond.1 {
            Err(e) => cond,
            Ok(c) => if truthy(c) {
                eval_form(host, cond.0, env, items[2], fuel)
            } else if items.len() == 4 {
                eval_form(host, cond.0, env, items[3], fuel)
            } else {
                (cond.0, Ok(Datum::Nil))
            },
        }
    } else {
        malformed(scopes, items)
    }
}

/// `(define name x)` binds `name` in `env` itself to the value of `x`, which is also the
/// result.
pub open spec fn form_define<H: Host>(
    host: &H,
    scopes: Seq<Scope>,
    env: Env,
    items: Seq<Datum>,
    fuel: nat,
) -> Step
    decreases fuel, 2nat, 0nat,
{
    if items.len() == 3 && items[1] is Symbol {
        let value = eval_form(host, scopes, env, items[2], fuel);
        match value.1 {
            Err(e) => value,
            Ok(v) => (define_in(value.0, env, word_of(items[1]), v), Ok(v)),
        }
    } else {
        malformed(scopes, items)
    }
}

/// `(set name x)` binds `name` to the value of `x` in the environment that owns it; where
/// none does, it is unbound.
pub open spec fn form_set<H: Host>(
    host: &H,
    scopes: Seq<Scope>,
    env: Env,
    items: Seq<Datum>,
    fuel: nat,
) -> Step
    decreases fuel, 2nat, 0nat,
{
    if items.len() == 3 && items[1] is Symbol {
        let value = eval_form(host, scopes, env, items[2], fuel);
        match value.1 {
            Err(e) => value,
            Ok(v) => (
                set_in(value.0, env, word_of(items[1]), v),
                if owner_of(value.0, env, word_of(items[1])) is Some {
                    Ok(v)
                } else {
                    Err(Fault::UnboundSymbol(word_of(items[1])))
                },
            ),
        }
    } else {
        malformed(scopes, items)
    }
}

/// `(lambda (p ...) body)` is the lambda that closes over `env`.
pub open spec fn form_lambda(scopes: Seq<Scope>, env: Env, items: Seq<Datum>) -> Step {
    if items.len() == 3 && items[1] is List && all_symbols(items[1]->List_0) {
        (
            scopes,
            Ok(
                Datum::Lambda {
                    closure: env,
                    params: words(items[1]->List_0),
                    body: Box::new(items[2]),
                },
            ),
        )
    } else {
        malformed(scopes, items)
    }
}

/// `(let ((name x) ...) body ...)`: a child of `env` binds each name to the value of its
/// `x`, which is evaluated in the child, one after the other; the body is evaluated in the
/// child like that of `begin`.
pub open spec fn form_let<H: Host>(
    host: &H,
    scopes: Seq<Scope>,
    env: Env,
    items: Seq<Datum>,
    fuel: nat,
) -> Step
    decreases fuel, 2nat, 0nat,
{
    if items.len() >= 2 && items[1] is List && all_bindings(items[1]->List_0) {
        let bound = bind_each(
            host,
            child_of(scopes, env),
            next_env(scopes, env.heap()),
            items[1]->List_0,
            0,
            fuel,
        );
        match bound.1 {
            Some(e) => (bound.0, Err(e)),
            None => sequence(
                host,
                bound.0,
                next_env(scopes, env.heap()),
                items,
                2,
                fuel,
                Datum::Nil,
            ),
        }
    } else {
        malformed(scopes, items)
    }
}

/// An application: the head is evaluated, then the arguments from left to right, then
/// the head's value is applied to theirs.
pub open spec fn form_call<H: Host>(
    host: &H,
    scopes: Seq<Scope>,
    env: Env,
    items: Seq<Datum>,
    fuel: nat,
) -> Step
    decreases fuel, 2nat, 0nat,
{
    let head = eval_form(host, scopes, env, items[0], fuel);
    match head.1 {
        Err(e) => head,
        Ok(callee) => {
            let args = each(host, head.0, env, items, 1, fuel, Seq::empty());
            match args.1 {
                Err(e) => (args.0, Err(e)),
                Ok(values) => apply_to(host, args.0, env, callee, values, fuel),
            }
        },
    }
}

/// The forms from `from` on, evaluated one after the other. The result is that of the
/// last one, or `last` where there is none; the first error ends it.
pub open spec fn sequence<H: Host>(
    host: &H,
    scopes: Seq<Scope>,
    env: Env,
    forms: Seq<Datum>,
    from: int,
    fuel: nat,
    last: Datum,
) -> Step
    decreases fuel, 1nat, forms.len() - from,
{
    if from < 0 || from >= forms.len() {
        (scopes, Ok(last))
    } else {
        let step = eval_form(host, scopes, env, forms[from], fuel);
        match step.1 {
            Err(e) => step,
            Ok(v) => sequence(host, step.0, env, forms, from + 1, fuel, v),
        }
    }
}

/// The values of the forms from `from` on, evaluated one after the other, behind those
/// that are `done`; the first error ends it.
pub open spec fn each<H: Host>(
    host: &H,
    scopes: Seq<Scope>,
    env: Env,
    forms: Seq<Datum>,
    from: int,
    fuel: nat,
    done: Seq<Datum>,
) -> (Seq<Scope>, Result<Seq<Datum>, Fault>)
    decreases fuel, 1nat, forms.len() - from,
{
    if from < 0 || from >= forms.len() {
        (scopes, Ok(done))
    } else {
        let step = eval_form(host, scopes, env, forms[from], fuel);
        match step.1 {
            Err(e) => (step.0, Err(e)),
            Ok(v) => each(host, step.0, env, forms, from + 1, fuel, done.push(v)),
        }
    }
}

/// The bindings from `from` on, made in `frame` one after the other; the first error ends
/// it.
pub open spec fn bind_each<H: Host>(
    host: &H,
    scopes: Seq<Scope>,
    frame: Env,
    bindings: Seq<Datum>,
    from: int,
    fuel: nat,
) -> (Seq<Scope>, Option<Fault>)
    decreases fuel, 1nat, bindings.len() - from,
{
    if from < 0 || from >= bindings.len() {
        (scopes, None)
    } else {
        let step = eval_form(host, scopes, frame, binding_expr(bindings[from]), fuel);
        match step.1 {
            Err(e) => (step.0, Some(e)),
            Ok(v) => bind_each(
                host,
                define_in(step.0, frame, binding_name(bindings[from]), v),
                frame,
                bindings,
                from + 1,
                fuel,
            ),
        }
    }
}

/// What applying `callee` to `args` comes to.
///
/// A lambda takes as many arguments as it has parameters. A new child of the environment
/// that it closes over, as that environment is now, binds the parameters to the arguments,
/// and the body is evaluated in that child; `env`, the environment of the caller, plays
/// no part in it. A primitive is the host's to run, in `env`. Nothing else can be applied,
/// nor a lambda whose environment is not one of `scopes`.
pub open spec fn apply_to<H: Host>(
    host: &H,
    scopes: Seq<Scope>,
    env: Env,
    callee: Datum,
    args: Seq<Datum>,
    fuel: nat,
) -> Step
    decreases fuel, 1nat, 0nat,
{
    match callee {
        Datum::Lambda { closure, params, body } => {
            if params.len() != args.len() {
                (
                    scopes,
                    Err(
                        Fault::ArityMismatch {
                            expected: params.len() as int,
                            actual: args.len() as int,
                        },
                    ),
                )
            } else if !known(scopes, closure) {
                (scopes, Err(Fault::NotCallable))
            } else {
                eval_form(
                    host,
                    bind_all(
                        child_of(scopes, closure),
                        next_env(scopes, closure.heap()),
                        params,
                        args,
                        0,
                    ),
                    next_env(scopes, closure.heap()),
                    *body,
                    fuel,
                )
            }
        },
        Datum::Primitive(name) => host.result_of(scopes, env, name, args),
        _ => (scopes, Err(Fault::NotCallable)),
    }
}

/// Binding parameters changes the frame that binds them and nothing else: no environment
/// comes or goes, the frame keeps its parent and its heap, and a name that is no parameter
/// is bound in it as it was before.
pub proof fn lemma_bind_all_touches_frame_only(
    scopes: Seq<Scope>,
    frame: Env,
    params: Seq<Seq<char>>,
    args: Seq<Datum>,
    from: int,
    name: Seq<char>,
)
    requires
        known(scopes, frame),
        0 <= from <= params.len(),
        forall|j: int| from <= j < params.len() ==> params[j] != name,
    ensures
        bind_all(scopes, frame, params, args, from).len() == scopes.len(),
        forall|i: int|
            0 <= i < scopes.len() && i != frame.index() ==> #[trigger] bind_all(
                scopes,
                frame,
                params,
                args,
                from,
            )[i] == scopes[i],
        bind_all(scopes, frame, params, args, from)[frame.index() as int].parent
            == scopes[frame.index() as int].parent,
        bind_all(scopes, frame, params, args, from)[frame.index() as int].home
            == scopes[frame.index() as int].home,
        bind_all(scopes, frame, params, args, from)[frame.index() as int].vars.contains_key(name)
            == scopes[frame.index() as int].vars.contains_key(name),
        bind_all(scopes, frame, params, args, from)[frame.index() as int].vars[name]
            == scopes[frame.index() as int].vars[name],
    decreases params.len() - from,
{
    if from < params.len() {
        let next = define_in(scopes, frame, params[from], args[from]);
        lemma_bind_all_touches_frame_only(next, frame, params, args, from + 1, name);
    }
}

/// A lambda that is given another number of arguments than it has parameters is not run:
/// nothing changes, and the error tells how many arguments it takes and how many it got.
pub proof fn law_arity_is_checked<H: Host>(
    host: &H,
    scopes: Seq<Scope>,
    env: Env,
    closure: Env,
    params: Seq<Seq<char>>,
    body: Datum,
    args: Seq<Datum>,
    fuel: nat,
)
    requires
        params.len() != args.len(),
    ensures
        apply_to(
            host,
            scopes,
            env,
            Datum::Lambda { closure, params, body: Box::new(body) },
            args,
            fuel,
        )
            == (
            scopes,
            Err::<Datum, Fault>(
                Fault::ArityMismatch { expected: params.len() as int, actual: args.len() as int },
            ),
        ),
{
}

/// A lambda that is given as many arguments as it has parameters is run: the result of
/// the call is that of its body, evaluated in a new child of the environment that the
/// lambda closes over, in which the parameters are bound to the arguments.
pub proof fn law_matching_arity_runs_body<H: Host>(
    host: &H,
    scopes: Seq<Scope>,
    env: Env,
    closure: Env,
    params: Seq<Seq<char>>,
    body: Datum,
    args: Seq<Datum>,
    fuel: nat,
)
    requires
        params.len() == args.len(),
        known(scopes, closure),
    ensures
        apply_to(
            host,
            scopes,
            env,
            Datum::Lambda { closure, params, body: Box::new(body) },
            args,
            fuel,
        )
            == eval_form(
            host,
            bind_all(child_of(scopes, closure), next_env(scopes, closure.heap()), params, args, 0),
            next_env(scopes, closure.heap()),
            body,
            fuel,
        ),
{
}

/// A lambda sees the environment that it closes over as it is when the lambda is called,
/// not as it was when the lambda was created. After `set_in` has given `name` a new value
/// as seen from that environment, the body of the next call finds the new value under
/// `name`, unless a parameter has that name; a body that is just the symbol `name` comes
/// to that value.
pub proof fn law_closure_sees_later_set<H: Host>(
    host: &H,
    scopes: Seq<Scope>,
    env: Env,
    closure: Env,
    params: Seq<Seq<char>>,
    args: Seq<Datum>,
    name: Seq<char>,
    value: Datum,
    fuel: nat,
)
    requires
        scopes.len() <= usize::MAX,
        owner_of(scopes, closure, name) is Some,
        params.len() == args.len(),
        forall|j: int| 0 <= j < params.len() ==> params[j] != name,
    ensures
        ({
            let after = set_in(scopes, closure, name, value);
            let frame = next_env(after, closure.heap());
            let inside = bind_all(child_of(after, closure), frame, params, args, 0);
            &&& lookup_in(inside, frame, name) == Ok::<Datum, Fault>(value)
            &&& apply_to(
                host,
                after,
                env,
                Datum::Lambda { closure, params, body: Box::new(Datum::Symbol(name)) },
                args,
                fuel,
            ) == (inside, Ok::<Datum, Fault>(value))
        }),
{
    let after = set_in(scopes, closure, name, value);
    let frame = next_env(after, closure.heap());
    let inside = bind_all(child_of(after, closure), frame, params, args, 0);
    law_set_is_seen_by_all(scopes, closure, name, value, closure);
    let entered = child_of(after, closure);
    lemma_env_at(closure.heap(), after.len() as usize);
    lemma_owner_binds(scopes, closure, name);
    assert(known(scopes, closure));
    assert(after.len() == scopes.len());
    assert(known(after, closure));
    assert(known(entered, frame));
    lemma_bind_all_touches_frame_only(entered, frame, params, args, 0, name);
    assert(!entered[frame.index() as int].vars.contains_key(name));
    assert(inside[frame.index() as int].parent == Some(closure));
    assert(inside[frame.index() as int].home == closure.heap());
    assert forall|i: int| 0 <= i <= closure.index() implies after[i] == inside[i] by {
        assert(inside[i] == entered[i]);
    }
    assert(known(inside, closure));
    lemma_owner_reads_older_only(after, inside, closure, name);
}

/// What a list of results stands for.
pub open spec fn outcomes(r: Result<Vec<Value>, RuntimeError>) -> Result<Seq<Datum>, Fault> {
    match r {
        Ok(values) => Ok(data(values@)),
        Err(e) => Err(e@),
    }
}

/// Decides which keyword a symbol is, if it is one.
fn keyword(name: &Symbol) -> (r: Option<Keyword>)
    ensures
        r == keyword_of(name@),
{
    if name.spells("quote") {
        Some(Keyword::Quote)
    } else if name.spells("if") {
        Some(Keyword::If)
    } else if name.spells("define") {
        Some(Keyword::Define)
    } else if name.spells("set") {
        Some(Keyword::Assign)
    } else if name.spells("lambda") {
        Some(Keyword::Lambda)
    } else if name.spells("begin") {
        Some(Keyword::Begin)
    } else if name.spells("let") {
        Some(Keyword::Let)
    } else {
        None
    }
}

/// Decides which keyword stands at the head of a list, if one does.
fn head_keyword(items: &Vec<Value>) -> (r: Option<Keyword>)
    requires
        items.len() > 0,
    ensures
        r == special_form(data(items@)[0]),
{
    match &items[0] {
        Value::Symbol(name) => keyword(name),
        _ => None,
    }
}

/// The error of a special form that does not have its shape.
fn malformed_form(items: &Vec<Value>) -> (r: RuntimeError)
    requires
        items.len() > 0,
    ensures
        r@ == Fault::MalformedSpecialForm(word_of(data(items@)[0])),
{
    match &items[0] {
        Value::Symbol(name) => RuntimeError::MalformedSpecialForm(name.clone()),
        _ => RuntimeError::MalformedSpecialForm(Symbol(String::new())),
    }
}

/// Decides whether a condition counts as met.
pub fn is_truthy(value: &Value) -> (r: bool)
    ensures
        r == truthy(value@),
{
    match value {
        Value::Nil => false,
        Value::Boolean(b) => *b,
        Value::List(list) => !list.is_empty(),
        _ => true,
    }
}

/// The symbols that the values are, if all of them are symbols.
fn symbols_of(values: &Vec<Value>) -> (r: Option<Vec<Symbol>>)
    ensures
        match r {
            Some(symbols) => all_symbols(data(values@)) && names(symbols@) == words(data(values@)),
            None => !all_symbols(data(values@)),
        },
{
    let mut symbols: Vec<Symbol> = Vec::new();
    let mut i: usize = 0;
    while i < values.len()
        invariant
            i <= values.len(),
            symbols.len() == i,
            forall|j: int| 0 <= j < i ==> #[trigger] data(values@)[j] is Symbol,
            forall|j: int| 0 <= j < i ==> symbols@[j]@ == word_of(#[trigger] data(values@)[j]),
        decreases values.len() - i,
    {
        match &values[i] {
            Value::Symbol(name) => {
                symbols.push(name.clone());
            },
            _ => {
                assert(!(data(values@)[i as int] is Symbol));
                return None;
            },
        }
        i += 1;
    }
    Some(symbols)
}

/// The names and expressions of the bindings that the values are, if all of them are
/// bindings.
fn bindings_of(values: &Vec<Value>) -> (r: Option<Vec<(Symbol, Value)>>)
    ensures
        match r {
            Some(pairs) => all_bindings(data(values@)) && pairs.len() == values.len() && (forall|
                j: int,
            |
                0 <= j < pairs.len() ==> (#[trigger] pairs@[j]).0@ == binding_name(
                    data(values@)[j],
                ) && pairs@[j].1@ == binding_expr(data(values@)[j])),
            None => !all_bindings(data(values@)),
        },
{
    let mut pairs: Vec<(Symbol, Value)> = Vec::new();
    let mut i: usize = 0;
    while i < values.len()
        invariant
            i <= values.len(),
            pairs.len() == i,
            forall|j: int| 0 <= j < i ==> #[trigger] is_binding(data(values@)[j]),
            forall|j: int|
                0 <= j < i ==> (#[trigger] pairs@[j]).0@ == binding_name(data(values@)[j])
                    && pairs@[j].1@ == binding_expr(data(values@)[j]),
        decreases values.len() - i,
    {
        match &values[i] {
            Value::List(list) => {
                let pair = list.to_vec();
                if pair.len() != 2 {
                    assert(!is_binding(data(values@)[i as int]));
                    return None;
                }
                match &pair[0] {
                    Value::Symbol(name) => {
                        pairs.push((name.clone(), pair[1].clone()));
                    },
                    _ => {
                        assert(!is_binding(data(values@)[i as int]));
                        return None;
                    },
                }
            },
            _ => {
                assert(!is_binding(data(values@)[i as int]));
                return None;
            },
        }
        i += 1;
    }
    Some(pairs)
}

/// Evaluates `form` in `env`, where lists may nest `fuel` deep.
pub fn eval<H: Host>(host: &H, heap: &mut Heap, env: Env, form: &Value, fuel: usize) -> (r: Result<
    Value,
    RuntimeError,
>)
    requires
        known(old(heap)@, env),
    ensures
        (final(heap)@, outcome(r)) == eval_form(host, old(heap)@, env, form@, fuel as nat),
        keeps(old(heap)@, final(heap)@),
        final(heap).identity() == old(heap).identity(),
    decreases fuel, 0nat, 0nat,
{
    match form {
        Value::Symbol(name) => heap.lookup(env, name),
        Value::List(list) => {
            let items = list.to_vec();
            if items.len() == 0 {
                return Err(RuntimeError::EmptyListAccess);
            }
            if fuel == 0 {
                return Err(RuntimeError::DepthExceeded);
            }
            match head_keyword(&items) {
                Some(Keyword::Quote) => eval_quote(heap, &items),
                Some(Keyword::If) => eval_if(host, heap, env, &items, fuel - 1),
                Some(Keyword::Define) => eval_define(host, heap, env, &items, fuel - 1),
                Some(Keyword::Assign) => eval_set(host, heap, env, &items, fuel - 1),
                Some(Keyword::Lambda) => eval_lambda(heap, env, &items),
                Some(Keyword::Begin) => eval_sequence(host, heap, env, &items, 1, fuel - 1),
                Some(Keyword::Let) => eval_let(host, heap, env, &items, fuel - 1),
                None => eval_call(host, heap, env, &items, fuel - 1),
            }
        },
        _ => Ok(form.clone()),
    }
}

/// Evaluates `(quote x)`.
fn eval_quote(heap: &Heap, items: &Vec<Value>) -> (r: Result<Value, RuntimeError>)
    requires
        items.len() > 0,
    ensures
        (heap@, outcome(r)) == form_quote(heap@, data(items@)),
{
    if items.len() == 2 {
        Ok(items[1].clone())
    } else {
        Err(malformed_form(items))
    }
}

/// Evaluates `(if c a)` and `(if c a b)`.
fn eval_if<H: Host>(host: &H, heap: &mut Heap, env: Env, items: &Vec<Value>, fuel: usize) -> (r:
    Result<Value, RuntimeError>)
    requires
        known(old(heap)@, env),
        items.len() > 0,
    ensures
        (final(heap)@, outcome(r)) == form_if(host, old(heap)@, env, data(items@), fuel as nat),
        keeps(old(heap)@, final(heap)@),
        final(heap).identity() == old(heap).identity(),
    decreases fuel, 2nat, 0nat,
{
    if items.len() != 3 && items.len() != 4 {
        return Err(malformed_form(items));
    }
    match eval(host, heap, env, &items[1], fuel) {
        Err(e) => Err(e),
        Ok(cond) => {
            if is_truthy(&cond) {
                eval(host, heap, env, &items[2], fuel)
            } else if items.len() == 4 {
                eval(host, heap, env, &items[3], fuel)
            } else {
                Ok(Value::Nil)
            }
        },
    }
}

/// Evaluates `(define name x)`.
fn eval_define<H: Host>(host: &H, heap: &mut Heap, env: Env, items: &Vec<Value>, fuel: usize) -> (r:
    Result<Value, RuntimeError>)
    requires
        known(old(heap)@, env),
        items.len() > 0,
    ensures
        (final(heap)@, outcome(r)) == form_define(host, old(heap)@, env, data(items@), fuel as nat),
        keeps(old(heap)@, final(heap)@),
        final(heap).identity() == old(heap).identity(),
    decreases fuel, 2nat, 0nat,
{
    if items.len() != 3 {
        return Err(malformed_form(items));
    }
    match &items[1] {
        Value::Symbol(name) => {
            match eval(host, heap, env, &items[2], fuel) {
                Err(e) => Err(e),
                Ok(value) => {
                    heap.define(env, name.clone(), value.clone());
                    Ok(value)
                },
            }
        },
        _ => Err(malformed_form(items)),
    }
}

/// Evaluates `(set name x)`.
fn eval_set<H: Host>(host: &H, heap: &mut Heap, env: Env, items: &Vec<Value>, fuel: usize) -> (r:
    Result<Value, RuntimeError>)
    requires
        known(old(heap)@, env),
        items.len() > 0,
    ensures
        (final(heap)@, outcome(r)) == form_set(host, old(heap)@, env, data(items@), fuel as nat),
        keeps(old(heap)@, final(heap)@),
        final(heap).identity() == old(heap).identity(),
    decreases fuel, 2nat, 0nat,
{
    if items.len() != 3 {
        return Err(malformed_form(items));
    }
    match &items[1] {
        Value::Symbol(name) => {
            match eval(host, heap, env, &items[2], fuel) {
                Err(e) => Err(e),
                Ok(value) => {
                    match heap.set(env, name, value.clone()) {
                        Ok(()) => Ok(value),
                        Err(e) => Err(e),
                    }
                },
            }
        },
        _ => Err(malformed_form(items)),
    }
}

/// Evaluates `(lambda (p ...) body)`.
fn eval_lambda(heap: &Heap, env: Env, items: &Vec<Value>) -> (r: Result<Value, RuntimeError>)
    requires
        items.len() > 0,
    ensures
        (heap@, outcome(r)) == form_lambda(heap@, env, data(items@)),
{
    if items.len() != 3 {
        return Err(malformed_form(items));
    }
    match &items[1] {
        Value::List(list) => {
            let params = list.to_vec();
            match symbols_of(&params) {
                Some(argnames) => Ok(
                    Value::Lambda(
                        Lambda { closure: env, argnames, body: Arc::new(items[2].clone()) },
                    ),
                ),
                None => Err(malformed_form(items)),
            }
        },
        _ => Err(malformed_form(items)),
    }
}

/// Evaluates `(let ((name x) ...) body ...)`.
fn eval_let<H: Host>(host: &H, heap: &mut Heap, env: Env, items: &Vec<Value>, fuel: usize) -> (r:
    Result<Value, RuntimeError>)
    requires
        known(old(heap)@, env),
        items.len() > 0,
    ensures
        (final(heap)@, outcome(r)) == form_let(host, old(heap)@, env, data(items@), fuel as nat),
        keeps(old(heap)@, final(heap)@),
        final(heap).identity() == old(heap).identity(),
    decreases fuel, 2nat, 0nat,
{
    if items.len() < 2 {
        return Err(malformed_form(items));
    }
    let pairs = match &items[1] {
        Value::List(list) => {
            let bindings = list.to_vec();
            match bindings_of(&bindings) {
                Some(pairs) => pairs,
                None => {
                    return Err(malformed_form(items));
                },
            }
        },
        _ => {
            return Err(malformed_form(items));
        },
    };
    let ghost bindings = data(items@)[1]->List_0;
    let frame = heap.child(env);
    let ghost start = heap@;
    let mut i: usize = 0;
    while i < pairs.len()
        invariant
            i <= pairs.len(),
            pairs.len() == bindings.len(),
            items.len() >= 2,
            data(items@)[1] == Datum::List(bindings),
            all_bindings(bindings),
            start == child_of(old(heap)@, env),
            frame == next_env(old(heap)@, env.heap()),
            known(heap@, frame),
            keeps(old(heap)@, heap@),
            heap.identity() == old(heap).identity(),
            forall|j: int|
                0 <= j < pairs.len() ==> (#[trigger] pairs@[j]).0@ == binding_name(bindings[j])
                    && pairs@[j].1@ == binding_expr(bindings[j]),
            bind_each(host, start, frame, bindings, 0, fuel as nat) == bind_each(
                host,
                heap@,
                frame,
                bindings,
                i as int,
                fuel as nat,
            ),
        decreases pairs.len() - i,
    {
        match eval(host, heap, frame, &pairs[i].1, fuel) {
            Err(e) => {
                return Err(e);
            },
            Ok(value) => {
                heap.define(frame, pairs[i].0.clone(), value);
            },
        }
        i += 1;
    }
    eval_sequence(host, heap, frame, items, 2, fuel)
}

/// Evaluates an application.
fn eval_call<H: Host>(host: &H, heap: &mut Heap, env: Env, items: &Vec<Value>, fuel: usize) -> (r:
    Result<Value, RuntimeError>)
    requires
        known(old(heap)@, env),
        items.len() > 0,
    ensures
        (final(heap)@, outcome(r)) == form_call(host, old(heap)@, env, data(items@), fuel as nat),
        keeps(old(heap)@, final(heap)@),
        final(heap).identity() == old(heap).identity(),
    decreases fuel, 2nat, 0nat,
{
    match eval(host, heap, env, &items[0], fuel) {
        Err(e) => Err(e),
        Ok(callee) => {
            match eval_each(host, heap, env, items, fuel) {
                Err(e) => Err(e),
                Ok(args) => apply(host, heap, env, &callee, args, fuel),
            }
        },
    }
}

/// Evaluates the forms from the second one on, from left to right.
fn eval_each<H: Host>(host: &H, heap: &mut Heap, env: Env, items: &Vec<Value>, fuel: usize) -> (r:
    Result<Vec<Value>, RuntimeError>)
    requires
        known(old(heap)@, env),
    ensures
        (final(heap)@, outcomes(r)) == each(
            host,
            old(heap)@,
            env,
            data(items@),
            1,
            fuel as nat,
            Seq::empty(),
        ),
        keeps(old(heap)@, final(heap)@),
        final(heap).identity() == old(heap).identity(),
    decreases fuel, 1nat, 0nat,
{
    let mut done: Vec<Value> = Vec::new();
    let mut i: usize = 1;
    assert(data(done@) =~= Seq::<Datum>::empty());
    while i < items.len()
        invariant
            1 <= i,
            known(heap@, env),
            keeps(old(heap)@, heap@),
            heap.identity() == old(heap).identity(),
            each(host, old(heap)@, env, data(items@), 1, fuel as nat, Seq::empty()) == each(
                host,
                heap@,
                env,
                data(items@),
                i as int,
                fuel as nat,
                data(done@),
            ),
        decreases items.len() - i,
    {
        match eval(host, heap, env, &items[i], fuel) {
            Err(e) => {
                return Err(e);
            },
            Ok(value) => {
                let ghost before = done@;
                done.push(value);
                assert(data(done@) =~= data(before).push(value@));
            },
        }
        i += 1;
    }
    Ok(done)
}

/// Evaluates the forms from `from` on, one after the other.
fn eval_sequence<H: Host>(
    host: &H,
    heap: &mut Heap,
    env: Env,
    forms: &Vec<Value>,
    from: usize,
    fuel: usize,
) -> (r: Result<Value, RuntimeError>)
    requires
        known(old(heap)@, env),
    ensures
        (final(heap)@, outcome(r)) == sequence(
            host,
            old(heap)@,
            env,
            data(forms@),
            from as int,
            fuel as nat,
            Datum::Nil,
        ),
        keeps(old(heap)@, final(heap)@),
        final(heap).identity() == old(heap).identity(),
    decreases fuel, 1nat, 0nat,
{
    let mut last = Value::Nil;
    let mut i: usize = from;
    while i < forms.len()
        invariant
            known(heap@, env),
            keeps(old(heap)@, heap@),
            heap.identity() == old(heap).identity(),
            sequence(host, old(heap)@, env, data(forms@), from as int, fuel as nat, Datum::Nil)
                == sequence(host, heap@, env, data(forms@), i as int, fuel as nat, last@),
        decreases forms.len() - i,
    {
        match eval(host, heap, env, &forms[i], fuel) {
            Err(e) => {
                return Err(e);
            },
            Ok(value) => {
                last = value;
            },
        }
        i += 1;
    }
    Ok(last)
}

/// Evaluates the forms one after the other in `env`. The result is that of the last form,
/// or `Nil` where there is none; the first error ends the evaluation, and the forms behind
/// it are not evaluated.
pub fn eval_block<H: Host>(
    host: &H,
    heap: &mut Heap,
    env: Env,
    forms: &Vec<Value>,
    fuel: usize,
) -> (r: Result<Value, RuntimeError>)
    requires
        known(old(heap)@, env),
    ensures
        (final(heap)@, outcome(r)) == sequence(
            host,
            old(heap)@,
            env,
            data(forms@),
            0,
            fuel as nat,
            Datum::Nil,
        ),
        keeps(old(heap)@, final(heap)@),
        final(heap).identity() == old(heap).identity(),
{
    eval_sequence(host, heap, env, forms, 0, fuel)
}

/// Applies `callee` to arguments that are evaluated already; `env` is the environment
/// of the caller.
pub fn apply<H: Host>(
    host: &H,
    heap: &mut Heap,
    env: Env,
    callee: &Value,
    args: Vec<Value>,
    fuel: usize,
) -> (r: Result<Value, RuntimeError>)
    requires
        known(old(heap)@, env),
    ensures
        (final(heap)@, outcome(r)) == apply_to(
            host,
            old(heap)@,
            env,
            callee@,
            data(args@),
            fuel as nat,
        ),
        keeps(old(heap)@, final(heap)@),
        final(heap).identity() == old(heap).identity(),
    decreases fuel, 1nat, 0nat,
{
    match callee {
        Value::Lambda(lambda) => {
            if lambda.argnames.len() != args.len() {
                return Err(
                    RuntimeError::ArityMismatch {
                        expected: lambda.argnames.len(),
                        actual: args.len(),
                    },
                );
            }
            if !heap.contains(lambda.closure) {
                return Err(RuntimeError::NotCallable);
            }
            let frame = heap.child(lambda.closure);
            let ghost start = heap@;
            let ghost params = names(lambda.argnames@);
            let mut i: usize = 0;
            while i < args.len()
                invariant
                    i <= args.len(),
                    args.len() == lambda.argnames.len(),
                    params == names(lambda.argnames@),
                    known(heap@, frame),
                    keeps(old(heap)@, heap@),
            heap.identity() == old(heap).identity(),
                    heap@.len() == start.len(),
                    bind_all(start, frame, params, data(args@), 0) == bind_all(
                        heap@,
                        frame,
                        params,
                        data(args@),
                        i as int,
                    ),
                decreases args.len() - i,
            {
                heap.define(frame, lambda.argnames[i].clone(), args[i].clone());
                i += 1;
            }
            eval(host, heap, frame, &*lambda.body, fuel)
        },
        Value::Primitive(name) => host.invoke(heap, env, name, &args),
        _ => Err(RuntimeError::NotCallable),
    }
}

} // verus!
