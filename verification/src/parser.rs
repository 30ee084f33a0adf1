//! The reader: from a text to the forms that it holds.

use crate::model::list::List;
use crate::model::value::{data, Datum, Symbol, Value};
use vstd::prelude::*;

verus! {

/// Why a piece of a text is no form.
#[derive(Clone, Copy, Debug, PartialEq, Eq, Structural)]
pub enum ParseError {
    /// A closing bracket stands at `at`, where no list is open.
    UnexpectedClose { at: usize },
    /// The text ends while `open` lists are still open.
    UnclosedList { open: usize },
    /// The string that begins at `at` has no closing quote.
    UnterminatedString { at: usize },
}

/// What a scan looks for.
#[derive(Clone, Copy, Debug, PartialEq, Eq, Structural)]
pub enum Stop {
    /// The end of the line.
    Line,
    /// A double quote.
    Quote,
    /// What cannot stand in a name or a number.
    Token,
}

/// Whether the character is a blank.
pub open spec fn is_space(c: char) -> bool {
    c == ' ' || c == '\t' || c == '\n' || c == '\r'
}

/// Whether a scan for `kind` stops at `c`.
pub open spec fn stops(kind: Stop, c: char) -> bool {
    match kind {
        Stop::Line => c == '\n',
        Stop::Quote => c == '"',
        Stop::Token => is_space(c) || c == '(' || c == ')' || c == '"' || c == ';',
    }
}

/// The first place from `from` on at which a scan for `kind` stops, or the end of the
/// text.
pub open spec fn scan_to(text: Seq<char>, from: int, kind: Stop) -> int
    decreases text.len() - from,
{
    if from < 0 || from >= text.len() {
        text.len() as int
    } else if stops(kind, text[from]) {
        from
    } else {
        scan_to(text, from + 1, kind)
    }
}

/// Whether the character is a decimal digit.
pub open spec fn is_digit(c: char) -> bool {
    '0' <= c <= '9'
}

/// Whether the text is one or more decimal digits.
pub open spec fn all_digits(s: Seq<char>) -> bool {
    s.len() > 0 && forall|i: int| 0 <= i < s.len() ==> is_digit(#[trigger] s[i])
}

/// The number that decimal digits spell.
pub open spec fn value_of(s: Seq<char>) -> int
    decreases s.len(),
{
    if s.len() == 0 {
        0
    } else {
        value_of(s.drop_last()) * 10 + (s.last() as int - '0' as int)
    }
}

/// The integer that a token spells: decimal digits, with a minus sign in front or
/// without, that come to a number between the least and the greatest integer of the
/// language.
pub open spec fn number_of(token: Seq<char>) -> Option<i64> {
    if token.len() > 0 && token[0] == '-' {
        if all_digits(token.drop_first()) && value_of(token.drop_first())
            <= 9223372036854775808 {
            Some((-value_of(token.drop_first())) as i64)
        } else {
            None
        }
    } else if all_digits(token) && value_of(token) <= 9223372036854775807 {
        Some(value_of(token) as i64)
    } else {
        None
    }
}

/// What a token stands for: an integer where it spells one, `T` and `F` for the two
/// booleans, `NIL` for `Nil`, and a symbol of that name otherwise.
pub open spec fn atom_of(token: Seq<char>) -> Datum {
    match number_of(token) {
        Some(n) => Datum::Integer(n),
        None => if token == "T"@ {
            Datum::Boolean(true)
        } else if token == "F"@ {
            Datum::Boolean(false)
        } else if token == "NIL"@ {
            Datum::Nil
        } else {
            Datum::Symbol(token)
        },
    }
}

/// The open lists after a value has been read: it is the last item of the innermost one.
pub open spec fn put_stack(stack: Seq<Seq<Datum>>, value: Datum) -> Seq<Seq<Datum>> {
    if stack.len() == 0 {
        stack
    } else {
        stack.update(stack.len() - 1, stack.last().push(value))
    }
}

/// The forms after a value has been read: it is one of them where no list is open.
pub open spec fn put_out(
    stack: Seq<Seq<Datum>>,
    out: Seq<Result<Datum, ParseError>>,
    value: Datum,
) -> Seq<Result<Datum, ParseError>> {
    if stack.len() == 0 {
        out.push(Ok(value))
    } else {
        out
    }
}

/// The forms of a text, read from `pos` on, behind those that are read already; `stack`
/// holds the items of the lists that are open at `pos`, the innermost list last.
///
/// Blanks separate and mean nothing else. A semicolon begins a comment, which goes to the
/// end of the line. Round brackets enclose the items of a list. A string stands between
/// double quotes and holds what stands between them as it is. Everything else is a token.
/// A closing bracket where no list is open is an error, and reading goes on behind it; a
/// string or a list that the text ends in is an error, and the last thing read.
pub open spec fn read_from(
    text: Seq<char>,
    pos: int,
    stack: Seq<Seq<Datum>>,
    out: Seq<Result<Datum, ParseError>>,
) -> Seq<Result<Datum, ParseError>>
    decreases text.len() - pos,
{
    if pos < 0 || pos >= text.len() {
        if stack.len() > 0 {
            out.push(Err(ParseError::UnclosedList { open: stack.len() as usize }))
        } else {
            out
        }
    } else if is_space(text[pos]) {
        read_from(text, pos + 1, stack, out)
    } else if text[pos] == ';' {
        let end = scan_to(text, pos + 1, Stop::Line);
        if pos < end <= text.len() {
            read_from(text, end, stack, out)
        } else {
            out
        }
    } else if text[pos] == '(' {
        read_from(text, pos + 1, stack.push(Seq::empty()), out)
    } else if text[pos] == ')' {
        if stack.len() == 0 {
            read_from(
                text,
                pos + 1,
                stack,
                out.push(Err(ParseError::UnexpectedClose { at: pos as usize })),
            )
        } else {
            read_from(
                text,
                pos + 1,
                put_stack(stack.drop_last(), Datum::List(stack.last())),
                put_out(stack.drop_last(), out, Datum::List(stack.last())),
            )
        }
    } else if text[pos] == '"' {
        let end = scan_to(text, pos + 1, Stop::Quote);
        if pos < end < text.len() {
            read_from(
                text,
                end + 1,
                put_stack(stack, Datum::Text(text.subrange(pos + 1, end))),
                put_out(stack, out, Datum::Text(text.subrange(pos + 1, end))),
            )
        } else {
            out.push(Err(ParseError::UnterminatedString { at: pos as usize }))
        }
    } else {
        let end = scan_to(text, pos + 1, Stop::Token);
        if pos < end <= text.len() {
            read_from(
                text,
                end,
                put_stack(stack, atom_of(text.subrange(pos, end))),
                put_out(stack, out, atom_of(text.subrange(pos, end))),
            )
        } else {
            out
        }
    }
}

/// The forms of a text, each as what it stands for or as the error in its place.
pub open spec fn forms_of(text: Seq<char>) -> Seq<Result<Datum, ParseError>> {
    read_from(text, 0, Seq::empty(), Seq::empty())
}

/// What a form that was read, or the error in its place, stands for.
pub open spec fn read_view(r: Result<Value, ParseError>) -> Result<Datum, ParseError> {
    match r {
        Ok(v) => Ok(v@),
        Err(e) => Err(e),
    }
}

/// What the forms that were read, and the errors among them, stand for.
pub open spec fn reads_view(out: Seq<Result<Value, ParseError>>) -> Seq<Result<Datum, ParseError>> {
    out.map_values(|r: Result<Value, ParseError>| read_view(r))
}

/// What the items of the open lists stand for.
pub open spec fn stack_view(stack: Seq<Vec<Value>>) -> Seq<Seq<Datum>> {
    stack.map_values(|items: Vec<Value>| data(items@))
}

/// `String::push`: one more character at the end of the string.
#[verifier::external_body]
fn push_char(text: &mut String, c: char)
    ensures
        final(text)@ == old(text)@.push(c),
{
    text.push(c)
}

/// The characters of a text, in their order.
pub fn chars_of(text: &str) -> (r: Vec<char>)
    ensures
        r@ == text@,
{
    let mut out: Vec<char> = Vec::new();
    for c in iter: text.chars()
        invariant
            iter.seq() == text@,
            out@ == iter.seq().take(iter.index() as int),
    {
        out.push(c);
    }
    out
}

/// The text of the characters from `from` up to `to`.
pub fn text_of(chars: &Vec<char>, from: usize, to: usize) -> (r: String)
    requires
        from <= to <= chars.len(),
    ensures
        r@ == chars@.subrange(from as int, to as int),
{
    let mut out = String::new();
    let mut i: usize = from;
    while i < to
        invariant
            from <= i <= to <= chars.len(),
            out@ == chars@.subrange(from as int, i as int),
        decreases to - i,
    {
        push_char(&mut out, chars[i]);
        i += 1;
    }
    out
}

/// Decides whether a scan for `kind` stops at `c`.
fn stops_at(kind: Stop, c: char) -> (r: bool)
    ensures
        r == stops(kind, c),
{
    match kind {
        Stop::Line => c == '\n',
        Stop::Quote => c == '"',
        Stop::Token => c == ' ' || c == '\t' || c == '\n' || c == '\r' || c == '(' || c == ')'
            || c == '"' || c == ';',
    }
}

/// Finds the first place from `from` on at which a scan for `kind` stops.
pub fn scan(chars: &Vec<char>, from: usize, kind: Stop) -> (r: usize)
    requires
        from <= chars.len(),
    ensures
        r == scan_to(chars@, from as int, kind),
        from <= r <= chars.len(),
{
    let mut i: usize = from;
    while i < chars.len() && !stops_at(kind, chars[i])
        invariant
            from <= i <= chars.len(),
            scan_to(chars@, from as int, kind) == scan_to(chars@, i as int, kind),
        decreases chars.len() - i,
    {
        i += 1;
    }
    i
}

/// The number that the first digits spell is at most the number that all of them spell.
proof fn lemma_value_grows(s: Seq<char>, k: int)
    requires
        forall|i: int| 0 <= i < s.len() ==> is_digit(#[trigger] s[i]),
        0 <= k <= s.len(),
    ensures
        0 <= value_of(s.take(k)) <= value_of(s),
    decreases s.len(),
{
    if s.len() > 0 {
        lemma_value_grows(s.drop_last(), s.len() - 1);
        if k == s.len() {
            assert(s.take(k) =~= s);
        } else {
            lemma_value_grows(s.drop_last(), k);
            assert(s.drop_last().take(k) =~= s.take(k));
        }
    }
}

/// The number that the characters from `from` up to `to` spell, if they are decimal
/// digits and the number is at most 9223372036854775808.
fn digits_value(chars: &Vec<char>, from: usize, to: usize) -> (r: Option<u64>)
    requires
        from <= to <= chars.len(),
    ensures
        match r {
            Some(v) => all_digits(chars@.subrange(from as int, to as int)) && v == value_of(
                chars@.subrange(from as int, to as int),
            ) && v <= 9223372036854775808,
            None => !all_digits(chars@.subrange(from as int, to as int)) || value_of(
                chars@.subrange(from as int, to as int),
            ) > 9223372036854775808,
        },
{
    let ghost all = chars@.subrange(from as int, to as int);
    if from == to {
        return None;
    }
    let mut acc: u64 = 0;
    let mut i: usize = from;
    while i < to
        invariant
            from <= i <= to <= chars.len(),
            from < to,
            all == chars@.subrange(from as int, to as int),
            forall|j: int| from <= j < i ==> is_digit(#[trigger] chars@[j]),
            acc == value_of(chars@.subrange(from as int, i as int)),
            acc <= 9223372036854775808,
        decreases to - i,
    {
        let c = chars[i];
        if !(c >= '0' && c <= '9') {
            assert(!is_digit(all[i - from]));
            return None;
        }
        let digit: u64 = (c as u64) - 48;
        let ghost before = chars@.subrange(from as int, i as int);
        let ghost after = chars@.subrange(from as int, i + 1);
        assert(after.drop_last() =~= before);
        if acc > 922337203685477580 || acc * 10 + digit > 9223372036854775808 {
            proof {
                if all_digits(all) {
                    lemma_value_grows(all, i + 1 - from);
                    assert(all.take(i + 1 - from) =~= after);
                }
            }
            return None;
        }
        acc = acc * 10 + digit;
        i += 1;
    }
    assert(all_digits(all));
    Some(acc)
}

/// The integer that the characters from `from` up to `to` spell, if they spell one.
pub fn number(chars: &Vec<char>, from: usize, to: usize) -> (r: Option<i64>)
    requires
        from < to <= chars.len(),
    ensures
        r == number_of(chars@.subrange(from as int, to as int)),
{
    let ghost token = chars@.subrange(from as int, to as int);
    if chars[from] == '-' {
        assert(token.drop_first() =~= chars@.subrange(from + 1, to as int));
        match digits_value(chars, from + 1, to) {
            None => None,
            Some(v) => {
                if v == 9223372036854775808 {
                    Some(i64::MIN)
                } else {
                    Some(-(v as i64))
                }
            },
        }
    } else {
        match digits_value(chars, from, to) {
            None => None,
            Some(v) => {
                if v > 9223372036854775807 {
                    None
                } else {
                    Some(v as i64)
                }
            },
        }
    }
}

/// What the token of the characters from `from` up to `to` stands for.
pub fn atom(chars: &Vec<char>, from: usize, to: usize) -> (r: Value)
    requires
        from < to <= chars.len(),
    ensures
        r@ == atom_of(chars@.subrange(from as int, to as int)),
{
    match number(chars, from, to) {
        Some(n) => Value::Integer(n),
        None => {
            let name = Symbol(text_of(chars, from, to));
            if name.spells("T") {
                Value::Boolean(true)
            } else if name.spells("F") {
                Value::Boolean(false)
            } else if name.spells("NIL") {
                Value::Nil
            } else {
                Value::Symbol(name)
            }
        },
    }
}

/// Takes a value that has been read into the innermost open list, or among the forms
/// where no list is open.
fn put(stack: &mut Vec<Vec<Value>>, out: &mut Vec<Result<Value, ParseError>>, value: Value)
    ensures
        stack_view(final(stack)@) == put_stack(stack_view(old(stack)@), value@),
        reads_view(final(out)@) == put_out(stack_view(old(stack)@), reads_view(old(out)@), value@),
{
    let n = stack.len();
    if n == 0 {
        out.push(Ok(value));
        assert(reads_view(out@) =~= put_out(
            stack_view(old(stack)@),
            reads_view(old(out)@),
            value@,
        ));
    } else {
        let ghost before = stack@[n - 1]@;
        stack[n - 1].push(value);
        assert(data(stack@[n - 1]@) =~= data(before).push(value@));
    }
}

/// Reads the forms of a text. Each form comes as a value, or as the error in its place.
pub fn parse(text: &str) -> (r: Vec<Result<Value, ParseError>>)
    ensures
        reads_view(r@) == forms_of(text@),
{
    let chars = chars_of(text);
    let mut stack: Vec<Vec<Value>> = Vec::new();
    let mut out: Vec<Result<Value, ParseError>> = Vec::new();
    let mut pos: usize = 0;
    assert(stack_view(stack@) =~= Seq::<Seq<Datum>>::empty());
    assert(reads_view(out@) =~= Seq::<Result<Datum, ParseError>>::empty());
    while pos < chars.len()
        invariant
            pos <= chars.len(),
            chars@ == text@,
            forms_of(text@) == read_from(
                chars@,
                pos as int,
                stack_view(stack@),
                reads_view(out@),
            ),
        decreases chars.len() - pos,
    {
        let c = chars[pos];
        if c == ' ' || c == '\t' || c == '\n' || c == '\r' {
            pos += 1;
        } else if c == ';' {
            pos = scan(&chars, pos + 1, Stop::Line);
        } else if c == '(' {
            let ghost before = stack@;
            stack.push(Vec::new());
            assert(data(stack@[stack.len() - 1]@) =~= Seq::<Datum>::empty());
            assert(stack_view(stack@) =~= stack_view(before).push(Seq::empty()));
            pos += 1;
        } else if c == ')' {
            let ghost before = stack@;
            match stack.pop() {
                None => {
                    let ghost seen = out@;
                    out.push(Err(ParseError::UnexpectedClose { at: pos }));
                    assert(reads_view(out@) =~= reads_view(seen).push(
                        Err(ParseError::UnexpectedClose { at: pos }),
                    ));
                },
                Some(items) => {
                    assert(stack_view(stack@) =~= stack_view(before).drop_last());
                    put(&mut stack, &mut out, Value::List(List::from_iter(items)));
                },
            }
            pos += 1;
        } else if c == '"' {
            let end = scan(&chars, pos + 1, Stop::Quote);
            if end < chars.len() {
                put(&mut stack, &mut out, Value::String(text_of(&chars, pos + 1, end)));
                pos = end + 1;
            } else {
                let ghost seen = out@;
                out.push(Err(ParseError::UnterminatedString { at: pos }));
                assert(reads_view(out@) =~= reads_view(seen).push(
                    Err(ParseError::UnterminatedString { at: pos }),
                ));
                return out;
            }
        } else {
            let end = scan(&chars, pos + 1, Stop::Token);
            put(&mut stack, &mut out, atom(&chars, pos, end));
            pos = end;
        }
    }
    if stack.len() > 0 {
        let ghost seen = out@;
        out.push(Err(ParseError::UnclosedList { open: stack.len() }));
        assert(reads_view(out@) =~= reads_view(seen).push(
            Err(ParseError::UnclosedList { open: stack.len() }),
        ));
    }
    out
}

} // verus!
