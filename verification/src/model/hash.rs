//! A hash that agrees with the equality of values.

use super::value::Datum;
use vstd::prelude::*;
use vstd::utf8::encode_utf8;

verus! {

/// One step of a digest: what was digested so far, and one more word.
pub open spec fn mix(acc: u64, word: u64) -> u64 {
    acc.wrapping_mul(1099511628211).wrapping_add(word)
}

/// The digest of a sequence of bytes.
pub open spec fn bytes_digest(bytes: Seq<u8>) -> u64
    decreases bytes.len(),
{
    if bytes.len() == 0 {
        14695981039346656037
    } else {
        mix(bytes_digest(bytes.drop_last()), bytes.last() as u64)
    }
}

/// The digest of a text: that of its bytes in UTF-8.
pub open spec fn text_digest(text: Seq<char>) -> u64 {
    bytes_digest(encode_utf8(text))
}

/// The digest of a sequence of names.
pub open spec fn words_digest(words: Seq<Seq<char>>) -> u64
    decreases words.len(),
{
    if words.len() == 0 {
        0
    } else {
        mix(words_digest(words.drop_last()), text_digest(words.last()))
    }
}

impl Datum {
    /// The hash of the value. It goes by what `same` looks at and by nothing else: of a
    /// list by whether it is empty and by its first item, of a lambda by the environment
    /// that it closes over, by its parameters and by its body.
    pub open spec fn digest(self) -> u64
        decreases self,
    {
        match self {
            Datum::Nil => 0,
            Datum::Boolean(b) => if b {
                1
            } else {
                2
            },
            Datum::Integer(n) => if n >= 0 {
                mix(3, n as u64)
            } else {
                mix(4, (-(n + 1)) as u64)
            },
            Datum::Text(s) => mix(5, text_digest(s)),
            Datum::Symbol(word) => mix(6, text_digest(word)),
            Datum::Primitive(name) => mix(7, text_digest(name)),
            Datum::List(items) => if items.len() == 0 {
                8
            } else {
                mix(9, items[0].digest())
            },
            Datum::Lambda { closure, params, body } => mix(
                mix(mix(mix(10, closure.heap() as u64), closure.index() as u64), words_digest(params)),
                body.digest(),
            ),
        }
    }
}

/// Values that are the same have the same hash.
pub proof fn law_same_values_hash_alike(a: Datum, b: Datum)
    requires
        a.same(b),
    ensures
        a.digest() == b.digest(),
    decreases a,
{
    match a {
        Datum::List(items) => {
            if items.len() > 0 {
                law_same_values_hash_alike(items[0], b->List_0[0]);
            }
        },
        Datum::Lambda { closure, params, body } => {
            law_same_values_hash_alike(*body, *b->Lambda_body);
        },
        _ => {},
    }
}

/// Computes one step of a digest.
pub fn mixed(acc: u64, word: u64) -> (r: u64)
    ensures
        r == mix(acc, word),
{
    acc.wrapping_mul(1099511628211).wrapping_add(word)
}

/// Computes the digest of a text.
pub fn digest_of_text(text: &str) -> (r: u64)
    ensures
        r == text_digest(text@),
{
    let bytes = text.as_bytes();
    let mut acc: u64 = 14695981039346656037;
    let mut i: usize = 0;
    while i < bytes.len()
        invariant
            i <= bytes.len(),
            acc == bytes_digest(bytes@.take(i as int)),
        decreases bytes.len() - i,
    {
        assert(bytes@.take(i + 1).drop_last() =~= bytes@.take(i as int));
        acc = mixed(acc, bytes[i] as u64);
        i += 1;
    }
    assert(bytes@.take(i as int) =~= bytes@);
    acc
}

/// `Hasher::write_u64`: hands one word to the hasher.
#[verifier::external_body]
pub(crate) fn feed<H: std::hash::Hasher>(state: &mut H, word: u64) {
    state.write_u64(word)
}

} // verus!
