//! Lists as chains of shared cells.

use super::error::{outcome, Fault, RuntimeError};
use super::hash::{feed, mixed};
use super::text::spaced;
use super::value::{data, Datum, Value};
use std::sync::Arc;
use vstd::prelude::*;
use vstd::std_specs::cmp::PartialEqSpecImpl;
use vstd::string::StringExecFns;

verus! {

/// `Arc::clone`: a second handle to the same allocation, so both handles hold the same value.
#[verifier::external_body]
pub(crate) fn share<T>(handle: &Arc<T>) -> (r: Arc<T>)
    ensures
        r == *handle,
{
    Arc::clone(handle)
}

/// A list of the language: a chain of shared cells, or no cell at all for the empty list.
#[derive(Debug)]
pub struct List {
    head: Option<Arc<ConsCell>>,
}

/// One link of a chain: an item and the cell that follows it, if any.
#[derive(Debug)]
struct ConsCell {
    car: Value,
    cdr: Option<Arc<ConsCell>>,
}

/// The items of a chain, first cell first.
spec fn chain_items(head: Option<Arc<ConsCell>>) -> Seq<Datum>
    decreases head,
{
    match head {
        None => Seq::empty(),
        Some(cell) => seq![cell.car.datum()] + chain_items(cell.cdr),
    }
}

impl List {
    /// What the items of this list stand for, first item first.
    pub closed spec fn items(&self) -> Seq<Datum>
        decreases self,
    {
        chain_items(self.head)
    }
}

impl View for List {
    type V = Seq<Datum>;

    open spec fn view(&self) -> Seq<Datum> {
        self.items()
    }
}

/// A second handle to the cell that a chain begins with, if it begins with one.
fn share_chain(head: &Option<Arc<ConsCell>>) -> (r: Option<Arc<ConsCell>>)
    ensures
        r == *head,
{
    match head {
        None => None,
        Some(cell) => Some(share(cell)),
    }
}

/// Writes the items of a chain out behind what `out` holds, with one space between each
/// two.
fn write_chain(head: &Option<Arc<ConsCell>>, out: &mut String)
    ensures
        final(out)@ == old(out)@ + spaced(chain_items(*head)),
    decreases head, 0nat,
{
    match head {
        None => {
        },
        Some(cell) => {
            cell.car.write_to(out);
            match &cell.cdr {
                None => {},
                Some(_) => {
                    out.append(" ");
                    write_chain(&cell.cdr, out);
                    assert(chain_items(*head).drop_first() =~= chain_items(cell.cdr));
                },
            }
        },
    }
}

impl Clone for List {
    fn clone(&self) -> (r: Self)
        ensures
            r@ == self@,
    {
        List { head: share_chain(&self.head) }
    }
}

/// The first item of a list, which the empty list does not have.
pub open spec fn first_of(items: Seq<Datum>) -> Result<Datum, Fault> {
    if items.len() == 0 {
        Err(Fault::EmptyListAccess)
    } else {
        Ok(items[0])
    }
}

/// What follows the first item of a list; nothing follows in the empty list.
pub open spec fn rest_of(items: Seq<Datum>) -> Seq<Datum> {
    if items.len() == 0 {
        items
    } else {
        items.drop_first()
    }
}

/// The list that begins with `item` and goes on with `items`.
pub open spec fn prepend(item: Datum, items: Seq<Datum>) -> Seq<Datum> {
    seq![item] + items
}

/// The first item of a list that was built by `prepend` is the item that was prepended, and
/// what follows it is the list that it was prepended to, the empty list included.
pub proof fn law_prepend_then_take_apart(item: Datum, items: Seq<Datum>)
    ensures
        first_of(prepend(item, items)) == Ok::<Datum, Fault>(item),
        rest_of(prepend(item, items)) == items,
{
}

/// The empty list has no first item, and nothing but the empty list follows in it.
pub proof fn law_empty_list()
    ensures
        first_of(Seq::<Datum>::empty()) == Err::<Datum, Fault>(Fault::EmptyListAccess),
        rest_of(Seq::<Datum>::empty()) == Seq::<Datum>::empty(),
{
}

impl List {
    /// The empty list.
    pub fn nil() -> (r: List)
        ensures
            r@ == Seq::<Datum>::empty(),
    {
        List { head: None }
    }

    /// Whether the list has no item.
    pub fn is_empty(&self) -> (r: bool)
        ensures
            r == (self@.len() == 0),
    {
        self.head.is_none()
    }

    /// The first item, or `EmptyListAccess` for the empty list.
    pub fn car(&self) -> (r: Result<Value, RuntimeError>)
        ensures
            outcome(r) == first_of(self@),
    {
        match &self.head {
            None => Err(RuntimeError::EmptyListAccess),
            Some(cell) => Ok(cell.car.clone()),
        }
    }

    /// A list with one new cell in front, which holds `val`; the cells of `self` follow
    /// it, shared and not copied.
    #[must_use]
    pub fn cons(&self, val: Value) -> (r: List)
        ensures
            r@ == prepend(val@, self@),
    {
        List { head: Some(Arc::new(ConsCell { car: val, cdr: share_chain(&self.head) })) }
    }

    /// The list of the cells behind the first one; the empty list for a list of one item
    /// and for the empty list.
    #[must_use]
    pub fn cdr(&self) -> (r: List)
        ensures
            r@ == rest_of(self@),
    {
        match &self.head {
            None => List { head: None },
            Some(cell) => {
                List { head: share_chain(&cell.cdr) }
            },
        }
    }

    /// A walk over the items, which starts at the first cell.
    pub fn into_iter(list: &List) -> (r: ConsIterator)
        ensures
            r@ == list@,
    {
        ConsIterator(share_chain(&list.head))
    }

    /// The list of the given items, in their order.
    pub fn from_iter(items: Vec<Value>) -> (r: List)
        ensures
            r@ == data(items@),
    {
        let mut left = items;
        let mut list = List::nil();
        loop
            invariant
                data(left@) + list@ == data(items@),
            decreases left.len(),
        {
            match left.pop() {
                None => {
                    return list;
                },
                Some(val) => {
                    list = list.cons(val);
                },
            }
        }
    }

    /// The items, in their order.
    pub fn to_vec(&self) -> (r: Vec<Value>)
        ensures
            data(r@) == self@,
    {
        let mut out: Vec<Value> = Vec::new();
        let mut cur = &self.head;
        loop
            invariant
                data(out@) + chain_items(*cur) == self@,
            decreases chain_items(*cur).len(),
        {
            match cur {
                None => {
                    return out;
                },
                Some(cell) => {
                    let ghost before = out@;
                    out.push(cell.car.clone());
                    proof {
                        assert(data(out@) + chain_items(cell.cdr) =~= data(before) + chain_items(
                            *cur,
                        ));
                    }
                    cur = &cell.cdr;
                },
            }
        }
    }

    /// Writes the items out behind what `out` holds, with one space between each two.
    pub fn write_items(&self, out: &mut String)
        ensures
            final(out)@ == old(out)@ + spaced(self@),
        decreases self, 0nat,
    {
        write_chain(&self.head, out);
    }

    /// Writes the list out behind what `out` holds: `NIL` for the empty list, else the
    /// items between round brackets.
    pub fn write_to(&self, out: &mut String)
        ensures
            final(out)@ == old(out)@ + Datum::List(self@).text(),
        decreases self, 0nat,
    {
        if self.head.is_none() {
            out.append("NIL");
        } else {
            out.append("(");
            write_chain(&self.head, out);
            out.append(")");
        }
    }

    /// The list, written out.
    pub fn to_string(&self) -> (r: String)
        ensures
            r@ == Datum::List(self@).text(),
    {
        let mut out = String::new();
        self.write_to(&mut out);
        out
    }

    /// The hash of the list: it goes by whether the list is empty and by the first item.
    pub fn hash_code(&self) -> (r: u64)
        ensures
            r == Datum::List(self@).digest(),
        decreases self,
    {
        match &self.head {
            None => 8,
            Some(cell) => mixed(9, cell.car.hash_code()),
        }
    }

    /// Decides whether both lists are empty or both begin with the same item.
    pub fn equals(&self, other: &List) -> (r: bool)
        ensures
            r == Datum::List(self@).same(Datum::List(other@)),
        decreases self,
    {
        match (&self.head, &other.head) {
            (Some(a), Some(b)) => a.car.equals(&b.car),
            (None, None) => true,
            _ => false,
        }
    }
}

impl PartialEq for List {
    fn eq(&self, other: &Self) -> (r: bool) {
        self.equals(other)
    }
}

impl Eq for List {}

impl std::hash::Hash for List {
    fn hash<H: std::hash::Hasher>(&self, state: &mut H) {
        feed(state, self.hash_code());
    }
}

impl PartialEqSpecImpl for List {
    open spec fn obeys_eq_spec() -> bool {
        true
    }

    open spec fn eq_spec(&self, other: &Self) -> bool {
        Datum::List(self@).same(Datum::List(other@))
    }
}

/// A walk over the items of a list: the cell it has come to, or none at the end.
pub struct ConsIterator(Option<Arc<ConsCell>>);

impl ConsIterator {
    /// What the items that the walk has not yet handed out stand for.
    pub closed spec fn remaining(&self) -> Seq<Datum> {
        chain_items(self.0)
    }

    /// Hands out the item of the cell that the walk has come to and moves on to the next
    /// cell; hands out nothing at the end.
    pub fn next(&mut self) -> (r: Option<Value>)
        ensures
            old(self)@.len() == 0 ==> r is None && final(self)@ == old(self)@,
            old(self)@.len() > 0 ==> (r matches Some(v) && v@ == old(self)@[0]),
            old(self)@.len() > 0 ==> final(self)@ == old(self)@.drop_first(),
    {
        match share_chain(&self.0) {
            None => None,
            Some(cell) => {
                let val = cell.car.clone();
                self.0 = share_chain(&cell.cdr);
                Some(val)
            },
        }
    }

    /// The number of items that the walk has not yet handed out.
    pub fn len(&self) -> (n: usize)
        requires
            self@.len() <= usize::MAX,
        ensures
            n == self@.len(),
    {
        let mut n: usize = 0;
        let mut cur = &self.0;
        loop
            invariant
                n + chain_items(*cur).len() == self@.len(),
                self@.len() <= usize::MAX,
            decreases chain_items(*cur).len(),
        {
            match cur {
                None => {
                    return n;
                },
                Some(cell) => {
                    n += 1;
                    cur = &cell.cdr;
                },
            }
        }
    }
}

impl View for ConsIterator {
    type V = Seq<Datum>;

    open spec fn view(&self) -> Seq<Datum> {
        self.remaining()
    }
}

impl Clone for ConsIterator {
    fn clone(&self) -> (r: Self)
        ensures
            r@ == self@,
    {
        ConsIterator(share_chain(&self.0))
    }
}

} // verus!
