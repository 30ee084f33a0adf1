//! How values are written out.

use super::value::Datum;
use vstd::prelude::*;
use vstd::string::StringExecFns;

verus! {

/// The digit for a number below ten.
pub open spec fn digit(d: int) -> Seq<char> {
    if d == 0 {
        "0"@
    } else if d == 1 {
        "1"@
    } else if d == 2 {
        "2"@
    } else if d == 3 {
        "3"@
    } else if d == 4 {
        "4"@
    } else if d == 5 {
        "5"@
    } else if d == 6 {
        "6"@
    } else if d == 7 {
        "7"@
    } else if d == 8 {
        "8"@
    } else {
        "9"@
    }
}

/// A natural number in decimal digits, without leading zeros.
pub open spec fn digits(n: nat) -> Seq<char>
    decreases n,
{
    if n < 10 {
        digit(n as int)
    } else {
        digits(n / 10) + digit((n % 10) as int)
    }
}

/// An integer in decimal digits, with a minus sign in front where it is negative.
pub open spec fn decimal(n: int) -> Seq<char> {
    if n < 0 {
        "-"@ + digits((-n) as nat)
    } else {
        digits(n as nat)
    }
}

/// The names with one space between each two.
pub open spec fn spaced_words(words: Seq<Seq<char>>) -> Seq<char>
    decreases words.len(),
{
    if words.len() == 0 {
        Seq::empty()
    } else if words.len() == 1 {
        words[0]
    } else {
        spaced_words(words.drop_last()) + " "@ + words.last()
    }
}

/// The texts of the items with one space between each two.
pub open spec fn spaced(items: Seq<Datum>) -> Seq<char>
    decreases items, 0nat,
{
    if items.len() == 0 {
        Seq::empty()
    } else if items.len() == 1 {
        items[0].text()
    } else {
        items[0].text() + " "@ + spaced(items.drop_first())
    }
}

impl Datum {
    /// How the value is written out. The empty list and `Nil` are `NIL`, `true` and
    /// `false` are `T` and `F`, a string stands between double quotes, and the items of a
    /// list stand between round brackets with one space between each two.
    pub open spec fn text(self) -> Seq<char>
        decreases self, 1nat,
    {
        match self {
            Datum::Nil => "NIL"@,
            Datum::Boolean(b) => if b {
                "T"@
            } else {
                "F"@
            },
            Datum::Integer(n) => decimal(n as int),
            Datum::Text(s) => "\""@ + s + "\""@,
            Datum::Symbol(word) => word,
            Datum::List(items) => if items.len() == 0 {
                "NIL"@
            } else {
                "("@ + spaced(items) + ")"@
            },
            Datum::Lambda { closure, params, body } => "<func:(lambda "@ + self.lambda_text()
                + ")>"@,
            Datum::Primitive(name) => "<primitive:"@ + name + ">"@,
        }
    }

    /// How the value is written out without the round brackets around it, if it is a list
    /// with items; as `text` for everything else.
    pub open spec fn bare_text(self) -> Seq<char>
        decreases self, 2nat,
    {
        match self {
            Datum::List(items) => if items.len() == 0 {
                self.text()
            } else {
                spaced(items)
            },
            _ => self.text(),
        }
    }

    /// How a lambda is written out: its parameters between round brackets, a space, and
    /// its body without the round brackets around it. The empty text for what is no lambda.
    pub open spec fn lambda_text(self) -> Seq<char>
        decreases self, 0nat,
    {
        match self {
            Datum::Lambda { closure, params, body } => "("@ + spaced_words(params) + ") "@
                + body.bare_text(),
            _ => Seq::empty(),
        }
    }
}

/// The digit for a number below ten, as a text.
fn digit_text(d: u64) -> (r: &'static str)
    requires
        d < 10,
    ensures
        r@ == digit(d as int),
{
    if d == 0 {
        "0"
    } else if d == 1 {
        "1"
    } else if d == 2 {
        "2"
    } else if d == 3 {
        "3"
    } else if d == 4 {
        "4"
    } else if d == 5 {
        "5"
    } else if d == 6 {
        "6"
    } else if d == 7 {
        "7"
    } else if d == 8 {
        "8"
    } else {
        "9"
    }
}

/// Writes a natural number in decimal digits behind what `out` holds.
pub fn write_digits(out: &mut String, n: u64)
    ensures
        final(out)@ == old(out)@ + digits(n as nat),
    decreases n,
{
    if n >= 10 {
        write_digits(out, n / 10);
    }
    out.append(digit_text(n % 10));
}

/// Writes an integer in decimal digits behind what `out` holds.
pub fn write_decimal(out: &mut String, n: i64)
    ensures
        final(out)@ == old(out)@ + decimal(n as int),
{
    if n < 0 {
        out.append("-");
        let magnitude: u64 = (-(n + 1)) as u64 + 1;
        write_digits(out, magnitude);
    } else {
        write_digits(out, n as u64);
    }
}

} // verus!
