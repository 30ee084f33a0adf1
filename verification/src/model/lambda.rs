//! Functions that are written in the language.

use super::env::{known, Env, Scope};
use super::hash::{digest_of_text, feed, mixed, words_digest};
use super::list::share;
use super::text::spaced_words;
use super::value::{names, Datum, Symbol, Value};
use std::sync::Arc;
use vstd::prelude::*;
use vstd::std_specs::cmp::PartialEqSpecImpl;
use vstd::string::StringExecFns;

verus! {

/// A function written in the language: the environment it was created in, the names of
/// its parameters and its body.
#[derive(Debug)]
pub struct Lambda {
    pub closure: Env,
    pub argnames: Vec<Symbol>,
    pub body: Arc<Value>,
}

impl Lambda {
    /// What this lambda stands for.
    pub open spec fn datum(&self) -> Datum
        decreases self,
    {
        Datum::Lambda {
            closure: self.closure,
            params: names(self.argnames@),
            body: Box::new(self.body.datum()),
        }
    }
}

impl View for Lambda {
    type V = Datum;

    open spec fn view(&self) -> Datum {
        self.datum()
    }
}

/// Decides whether two sequences of symbols spell the same names.
pub fn same_names(a: &Vec<Symbol>, b: &Vec<Symbol>) -> (r: bool)
    ensures
        r == (names(a@) == names(b@)),
{
    if a.len() != b.len() {
        return false;
    }
    let mut i: usize = 0;
    while i < a.len()
        invariant
            i <= a.len(),
            a.len() == b.len(),
            forall|j: int| 0 <= j < i ==> a@[j]@ == b@[j]@,
        decreases a.len() - i,
    {
        if a[i] != b[i] {
            assert(names(a@)[i as int] != names(b@)[i as int]);
            return false;
        }
        i += 1;
    }
    assert(names(a@) =~= names(b@));
    true
}

/// Writes the names out behind what `out` holds, with one space between each two.
pub fn write_names(symbols: &Vec<Symbol>, out: &mut String)
    ensures
        final(out)@ == old(out)@ + spaced_words(names(symbols@)),
{
    let mut i: usize = 0;
    while i < symbols.len()
        invariant
            i <= symbols.len(),
            out@ == old(out)@ + spaced_words(names(symbols@).take(i as int)),
        decreases symbols.len() - i,
    {
        let ghost before = names(symbols@).take(i as int);
        let ghost after = names(symbols@).take(i + 1);
        assert(after.drop_last() =~= before);
        if i > 0 {
            out.append(" ");
        }
        out.append(symbols[i].0.as_str());
        i += 1;
    }
    assert(names(symbols@).take(i as int) =~= names(symbols@));
}

/// Computes the digest of the names that the symbols spell.
pub fn digest_of_names(symbols: &Vec<Symbol>) -> (r: u64)
    ensures
        r == words_digest(names(symbols@)),
{
    let mut acc: u64 = 0;
    let mut i: usize = 0;
    while i < symbols.len()
        invariant
            i <= symbols.len(),
            acc == words_digest(names(symbols@).take(i as int)),
        decreases symbols.len() - i,
    {
        assert(names(symbols@).take(i + 1).drop_last() =~= names(symbols@).take(i as int));
        acc = mixed(acc, digest_of_text(symbols[i].0.as_str()));
        i += 1;
    }
    assert(names(symbols@).take(i as int) =~= names(symbols@));
    acc
}

impl Clone for Lambda {
    fn clone(&self) -> (r: Self)
        ensures
            r@ == self@,
    {
        let argnames = self.argnames.clone();
        Lambda { closure: self.closure, argnames, body: share(&self.body) }
    }
}

impl Lambda {
    /// Writes the lambda out behind what `out` holds: its parameters between round
    /// brackets, a space, and its body without the round brackets around it.
    pub fn write_to(&self, out: &mut String)
        ensures
            final(out)@ == old(out)@ + self@.lambda_text(),
        decreases self, 0nat,
    {
        out.append("(");
        write_names(&self.argnames, out);
        out.append(") ");
        self.body.write_bare(out);
    }

    /// The hash of the lambda: it goes by the environment that the lambda closes over, by
    /// the names of its parameters and by its body.
    pub fn hash_code(&self) -> (r: u64)
        ensures
            r == self@.digest(),
        decreases self,
    {
        mixed(
            mixed(
                mixed(mixed(10, self.closure.heap() as u64), self.closure.index() as u64),
                digest_of_names(&self.argnames),
            ),
            self.body.hash_code(),
        )
    }

    /// The lambda, written out.
    pub fn to_string(&self) -> (r: String)
        ensures
            r@ == self@.lambda_text(),
    {
        let mut out = String::new();
        self.write_to(&mut out);
        out
    }

    /// Decides `self@.same(other@)`.
    pub fn equals(&self, other: &Lambda) -> (r: bool)
        ensures
            r == self@.same(other@),
        decreases self,
    {
        self.closure == other.closure && same_names(&self.argnames, &other.argnames)
            && self.body.equals(&other.body)
    }
}

/// The lambda that closes over `closure`, names the parameters `params` and has the body
/// `body`.
pub open spec fn lambda_of(closure: Env, params: Seq<Seq<char>>, body: Datum) -> Datum {
    Datum::Lambda { closure, params, body: Box::new(body) }
}

/// Two lambdas that close over the same environment, name the same parameters and have
/// bodies that are the same are the same. Two lambdas that close over different
/// environments are not, whatever the two environments hold; environments differ where
/// they stand at different places of one heap, and where they are of different heaps.
pub proof fn law_lambda_identity(
    closure1: Env,
    params1: Seq<Seq<char>>,
    body1: Datum,
    closure2: Env,
    params2: Seq<Seq<char>>,
    body2: Datum,
)
    ensures
        closure1 == closure2 && params1 == params2 && body1.same(body2) ==> lambda_of(
            closure1,
            params1,
            body1,
        ).same(lambda_of(closure2, params2, body2)),
        closure1 != closure2 ==> !lambda_of(closure1, params1, body1).same(
            lambda_of(closure2, params2, body2),
        ),
{
}

/// Two lambdas that close over environments of heaps with different identities are not
/// the same, even where the two environments were created alike, stand at the same place
/// in their heaps and hold the same, and the parameters and the bodies are the same.
pub proof fn law_lambdas_of_other_heaps_differ(
    one: Seq<Scope>,
    other: Seq<Scope>,
    closure1: Env,
    closure2: Env,
    params: Seq<Seq<char>>,
    body: Datum,
)
    requires
        known(one, closure1),
        known(other, closure2),
        one[closure1.index() as int].home != other[closure2.index() as int].home,
    ensures
        closure1 != closure2,
        !lambda_of(closure1, params, body).same(lambda_of(closure2, params, body)),
{
}

impl PartialEq for Lambda {
    fn eq(&self, other: &Self) -> (r: bool) {
        self.equals(other)
    }
}

impl Eq for Lambda {}

impl std::hash::Hash for Lambda {
    fn hash<H: std::hash::Hasher>(&self, state: &mut H) {
        feed(state, self.hash_code());
    }
}

impl PartialEqSpecImpl for Lambda {
    open spec fn obeys_eq_spec() -> bool {
        true
    }

    open spec fn eq_spec(&self, other: &Self) -> bool {
        self@.same(other@)
    }
}

} // verus!
