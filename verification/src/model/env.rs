//! Environments: what names are bound to, and where a lookup goes on to.

use super::error::{outcome, Fault, RuntimeError};
use super::value::{Datum, Symbol, Value};
use std::sync::Arc;
use vstd::prelude::*;

verus! {

/// A reference to one environment: the identity of the heap that the environment was
/// created in, and its place among the environments of that heap. Two references are the
/// same environment exactly when they are equal; what the environments hold plays no part
/// in that.
#[derive(Clone, Copy, Debug, PartialEq, Eq, Structural, Hash)]
pub struct Env {
    heap: usize,
    id: usize,
}

impl Env {
    /// The identity of the heap that the environment was created in.
    pub closed spec fn spec_heap(&self) -> usize {
        self.heap
    }

    /// The place of the environment among those of its heap: how many were created there
    /// before it.
    pub closed spec fn spec_place(&self) -> usize {
        self.id
    }

    /// The reference to the environment at the place `index` of the heap with the
    /// identity `heap`.
    pub closed spec fn at(heap: usize, index: usize) -> Env {
        Env { heap, id: index }
    }

    /// The identity of the heap that the environment was created in.
    #[verifier::when_used_as_spec(spec_heap)]
    pub fn heap(&self) -> (r: usize)
        ensures
            r == self.spec_heap(),
    {
        self.heap
    }

    /// The place of the environment among those of its heap.
    #[verifier::when_used_as_spec(spec_place)]
    pub fn index(&self) -> (r: usize)
        ensures
            r == self.spec_place(),
    {
        self.id
    }
}

/// The reference to the environment at a place of a heap names that heap and that place.
pub broadcast proof fn lemma_env_at(heap: usize, index: usize)
    ensures
        (#[trigger] Env::at(heap, index)).heap() == heap,
        Env::at(heap, index).index() == index,
{
}

/// What one environment holds: the values that it binds to names itself, the environment
/// that it hands a lookup on to when it does not bind the name, and the identity of the
/// heap that it was created in.
pub struct Scope {
    pub vars: Map<Seq<char>, Datum>,
    pub parent: Option<Env>,
    pub home: usize,
}

/// Whether `env` refers to an environment of `scopes`: there is one at its place, and it
/// was created in the heap that `env` names.
pub open spec fn known(scopes: Seq<Scope>, env: Env) -> bool {
    env.index() < scopes.len() && scopes[env.index() as int].home == env.heap()
}

/// The nearest environment on the way from `env` outwards that binds `name` itself.
pub open spec fn owner_of(scopes: Seq<Scope>, env: Env, name: Seq<char>) -> Option<Env>
    decreases env.index(),
{
    if !known(scopes, env) {
        None
    } else if scopes[env.index() as int].vars.contains_key(name) {
        Some(env)
    } else {
        match scopes[env.index() as int].parent {
            Some(parent) => if parent.index() < env.index() {
                owner_of(scopes, parent, name)
            } else {
                None
            },
            None => None,
        }
    }
}

/// The value of `name` as seen from `env`: that of the nearest environment that binds it.
pub open spec fn lookup_in(scopes: Seq<Scope>, env: Env, name: Seq<char>) -> Result<
    Datum,
    Fault,
> {
    match owner_of(scopes, env, name) {
        Some(owner) => Ok(scopes[owner.index() as int].vars[name]),
        None => Err(Fault::UnboundSymbol(name)),
    }
}

/// The environments after `env` itself has bound `name` to `value`.
pub open spec fn define_in(scopes: Seq<Scope>, env: Env, name: Seq<char>, value: Datum) -> Seq<
    Scope,
> {
    if known(scopes, env) {
        scopes.update(
            env.index() as int,
            Scope {
                vars: scopes[env.index() as int].vars.insert(name, value),
                parent: scopes[env.index() as int].parent,
                home: scopes[env.index() as int].home,
            },
        )
    } else {
        scopes
    }
}

/// The environments after the nearest environment that binds `name`, seen from `env`, has
/// bound it to `value` instead; nothing changes where no environment binds it.
pub open spec fn set_in(scopes: Seq<Scope>, env: Env, name: Seq<char>, value: Datum) -> Seq<
    Scope,
> {
    match owner_of(scopes, env, name) {
        Some(owner) => define_in(scopes, owner, name, value),
        None => scopes,
    }
}

/// Whether every environment of `before` is still one of `after`: none was taken away
/// and none has changed its heap.
pub open spec fn keeps(before: Seq<Scope>, after: Seq<Scope>) -> bool {
    before.len() <= after.len() && forall|env: Env| #[trigger]
        known(before, env) ==> known(after, env)
}

/// The environments with one more, which binds nothing, hands lookups on to `parent` and
/// lives in the heap of `parent`. The new environment is `next_env(scopes, parent.heap())`.
pub open spec fn child_of(scopes: Seq<Scope>, parent: Env) -> Seq<Scope> {
    scopes.push(Scope { vars: Map::empty(), parent: Some(parent), home: parent.heap() })
}

/// The environment that is created next in the heap with the identity `heap`.
pub open spec fn next_env(scopes: Seq<Scope>, heap: usize) -> Env {
    Env::at(heap, scopes.len() as usize)
}

/// The environments with one more, which binds nothing, has no parent and lives in the
/// heap with the identity `heap`. The new environment is `next_env(scopes, heap)`.
pub open spec fn root_of(scopes: Seq<Scope>, heap: usize) -> Seq<Scope> {
    scopes.push(Scope { vars: Map::empty(), parent: None, home: heap })
}

/// An environment that is created is none of those that were there before, whatever it
/// and they hold.
pub proof fn law_new_env_is_another(scopes: Seq<Scope>, env: Env, heap: usize)
    requires
        scopes.len() <= usize::MAX,
        known(scopes, env),
    ensures
        next_env(scopes, heap) != env,
        known(child_of(scopes, env), next_env(scopes, env.heap())),
        known(root_of(scopes, heap), next_env(scopes, heap)),
{
}

/// Environments of heaps with different identities are different environments, wherever
/// they stand in their heaps and whatever they hold.
pub proof fn law_envs_of_other_heaps_differ(
    one: Seq<Scope>,
    other: Seq<Scope>,
    a: Env,
    b: Env,
)
    requires
        known(one, a),
        known(other, b),
        one[a.index() as int].home != other[b.index() as int].home,
    ensures
        a != b,
{
}

/// An environment of one heap is none of a heap with another identity: where every
/// environment of `other` lives in a heap that `env` does not name, `env` is not known
/// there.
pub proof fn law_env_is_unknown_elsewhere(other: Seq<Scope>, env: Env)
    requires
        forall|i: int| 0 <= i < other.len() ==> (#[trigger] other[i]).home != env.heap(),
    ensures
        !known(other, env),
{
}

/// Whether a lookup of `name` that starts at `from` comes to `to` before any environment
/// on the way has bound the name.
pub open spec fn inherits(scopes: Seq<Scope>, from: Env, to: Env, name: Seq<char>) -> bool
    decreases from.index(),
{
    from == to || (known(scopes, from) && !scopes[from.index() as int].vars.contains_key(name)
        && match scopes[from.index() as int].parent {
        Some(parent) => parent.index() < from.index() && inherits(scopes, parent, to, name),
        None => false,
    })
}

/// A lookup that starts at `env` reads no environment that was created after `env`.
pub proof fn lemma_owner_reads_older_only(
    before: Seq<Scope>,
    after: Seq<Scope>,
    env: Env,
    name: Seq<char>,
)
    requires
        known(before, env),
        known(after, env),
        forall|i: int| 0 <= i <= env.index() ==> before[i] == after[i],
    ensures
        owner_of(before, env, name) == owner_of(after, env, name),
        lookup_in(before, env, name) == lookup_in(after, env, name),
        owner_of(before, env, name) matches Some(owner) ==> owner.index() <= env.index(),
    decreases env.index(),
{
    if !before[env.index() as int].vars.contains_key(name) {
        match before[env.index() as int].parent {
            Some(parent) => {
                if parent.index() < env.index() && known(before, parent) {
                    lemma_owner_reads_older_only(before, after, parent, name);
                }
            },
            None => {},
        }
    }
}

/// The environment that a lookup finds binds the name and is no younger than the one
/// that the lookup started at.
pub proof fn lemma_owner_binds(scopes: Seq<Scope>, env: Env, name: Seq<char>)
    ensures
        owner_of(scopes, env, name) matches Some(owner) ==> known(scopes, owner) && owner.index()
            <= env.index() && scopes[owner.index() as int].vars.contains_key(name),
    decreases env.index(),
{
    if known(scopes, env) && !scopes[env.index() as int].vars.contains_key(name) {
        match scopes[env.index() as int].parent {
            Some(parent) => {
                if parent.index() < env.index() {
                    lemma_owner_binds(scopes, parent, name);
                }
            },
            None => {},
        }
    }
}

/// Binding a name anew in an environment that binds it already moves no lookup to
/// another environment.
pub proof fn lemma_rebinding_keeps_owners(
    scopes: Seq<Scope>,
    owner: Env,
    name: Seq<char>,
    value: Datum,
    env: Env,
    other: Seq<char>,
)
    requires
        known(scopes, owner),
        scopes[owner.index() as int].vars.contains_key(name),
    ensures
        owner_of(define_in(scopes, owner, name, value), env, other) == owner_of(
            scopes,
            env,
            other,
        ),
    decreases env.index(),
{
    let after = define_in(scopes, owner, name, value);
    if known(scopes, env) {
        assert(after[env.index() as int].vars.contains_key(other) == scopes[env.index() as int].vars.contains_key(
            other,
        ));
        if !scopes[env.index() as int].vars.contains_key(other) {
            match scopes[env.index() as int].parent {
                Some(parent) => {
                    if parent.index() < env.index() {
                        lemma_rebinding_keeps_owners(scopes, owner, name, value, parent, other);
                    }
                },
                None => {},
            }
        }
    }
}

/// A name that an environment has just bound is visible from that environment, with the
/// value it was bound to.
pub proof fn law_define_is_visible(scopes: Seq<Scope>, env: Env, name: Seq<char>, value: Datum)
    requires
        known(scopes, env),
    ensures
        lookup_in(define_in(scopes, env, name, value), env, name) == Ok::<Datum, Fault>(value),
{
}

/// What an environment binds is visible from every environment from which a lookup of
/// the name comes to it: from itself, from its children and from their descendants, as
/// long as none on the way binds the name itself.
pub proof fn law_binding_is_inherited(scopes: Seq<Scope>, from: Env, to: Env, name: Seq<char>)
    requires
        known(scopes, to),
        scopes[to.index() as int].vars.contains_key(name),
        inherits(scopes, from, to, name),
    ensures
        lookup_in(scopes, from, name) == Ok::<Datum, Fault>(scopes[to.index() as int].vars[name]),
    decreases from.index(),
{
    if from != to {
        law_binding_is_inherited(scopes, scopes[from.index() as int].parent.unwrap(), to, name);
    }
}

/// What a child binds is not visible from the environments that were there before it,
/// its parent among them: seen from them, every name is what it was before the child was
/// created.
pub proof fn law_define_in_child_is_hidden(
    scopes: Seq<Scope>,
    parent: Env,
    child: Env,
    name: Seq<char>,
    value: Datum,
    env: Env,
    other: Seq<char>,
)
    requires
        child.index() == scopes.len(),
        known(scopes, env),
    ensures
        lookup_in(define_in(child_of(scopes, parent), child, name, value), env, other)
            == lookup_in(scopes, env, other),
{
    let after = define_in(child_of(scopes, parent), child, name, value);
    lemma_owner_reads_older_only(scopes, after, env, other);
    lemma_owner_binds(scopes, env, other);
}

/// `set_in` changes the binding in the environment that owns the name, however far out
/// that is, and the new value is then what every environment sees whose lookup of the
/// name came to that owner.
pub proof fn law_set_is_seen_by_all(
    scopes: Seq<Scope>,
    env: Env,
    name: Seq<char>,
    value: Datum,
    from: Env,
)
    requires
        owner_of(scopes, env, name) is Some,
        owner_of(scopes, from, name) == owner_of(scopes, env, name),
    ensures
        set_in(scopes, env, name, value) == define_in(
            scopes,
            owner_of(scopes, env, name).unwrap(),
            name,
            value,
        ),
        lookup_in(set_in(scopes, env, name, value), from, name) == Ok::<Datum, Fault>(value),
{
    let owner = owner_of(scopes, env, name).unwrap();
    lemma_owner_binds(scopes, env, name);
    lemma_rebinding_keeps_owners(scopes, owner, name, value, from, name);
}

/// One environment as it is stored: its bindings in the order in which their names were
/// first bound, and its parent.
struct Frame {
    bindings: Vec<(Symbol, Value)>,
    parent: Option<Env>,
    home: usize,
}

/// The map that a sequence of bindings stands for; of two bindings of one name the
/// later one counts.
spec fn table(bindings: Seq<(Symbol, Value)>) -> Map<Seq<char>, Datum>
    decreases bindings.len(),
{
    if bindings.len() == 0 {
        Map::empty()
    } else {
        table(bindings.drop_last()).insert(bindings.last().0@, bindings.last().1@)
    }
}

/// A name that no binding has is not in the map.
proof fn lemma_table_without(bindings: Seq<(Symbol, Value)>, name: Seq<char>)
    requires
        forall|j: int| 0 <= j < bindings.len() ==> bindings[j].0@ != name,
    ensures
        !table(bindings).contains_key(name),
    decreases bindings.len(),
{
    if bindings.len() > 0 {
        lemma_table_without(bindings.drop_last(), name);
    }
}

/// The map gives a name the value of the last binding that has the name.
proof fn lemma_table_at(bindings: Seq<(Symbol, Value)>, k: int, name: Seq<char>)
    requires
        0 <= k < bindings.len(),
        bindings[k].0@ == name,
        forall|j: int| k < j < bindings.len() ==> bindings[j].0@ != name,
    ensures
        table(bindings).contains_key(name),
        table(bindings)[name] == bindings[k].1@,
    decreases bindings.len(),
{
    if k < bindings.len() - 1 {
        lemma_table_at(bindings.drop_last(), k, name);
    }
}

/// To put a binding in the place of the last one of the same name gives the name the new
/// value in the map and changes nothing else.
proof fn lemma_table_replace(bindings: Seq<(Symbol, Value)>, k: int, entry: (Symbol, Value))
    requires
        0 <= k < bindings.len(),
        bindings[k].0@ == entry.0@,
        forall|j: int| k < j < bindings.len() ==> bindings[j].0@ != entry.0@,
    ensures
        table(bindings.update(k, entry)) == table(bindings).insert(entry.0@, entry.1@),
    decreases bindings.len(),
{
    let after = bindings.update(k, entry);
    if k < bindings.len() - 1 {
        lemma_table_replace(bindings.drop_last(), k, entry);
        assert(after.drop_last() =~= bindings.drop_last().update(k, entry));
    } else {
        assert(after.drop_last() =~= bindings.drop_last());
    }
}

/// The place of the binding of `name` that counts, if there is one.
fn slot_of(bindings: &Vec<(Symbol, Value)>, name: &Symbol) -> (r: Option<usize>)
    ensures
        match r {
            Some(k) => k < bindings.len() && bindings[k as int].0@ == name@ && (forall|j: int|
                k < j < bindings.len() ==> bindings[j].0@ != name@) && table(
                bindings@,
            ).contains_key(name@) && table(bindings@)[name@] == bindings[k as int].1@,
            None => !table(bindings@).contains_key(name@),
        },
{
    let mut i: usize = bindings.len();
    while i > 0
        invariant
            i <= bindings.len(),
            forall|j: int| i <= j < bindings.len() ==> bindings[j].0@ != name@,
        decreases i,
    {
        i -= 1;
        if bindings[i].0 == *name {
            proof {
                lemma_table_at(bindings@, i as int, name@);
            }
            return Some(i);
        }
    }
    proof {
        lemma_table_without(bindings@, name@);
    }
    None
}

impl Frame {
    /// What the frame holds.
    spec fn scope(&self) -> Scope {
        Scope { vars: table(self.bindings@), parent: self.parent, home: self.home }
    }
}

/// `Arc::as_ptr`: the place of the handle's allocation in memory, as a number. No two
/// allocations that exist at the same time have the same place; nothing else is known of
/// the number.
#[verifier::external_body]
fn place_of(token: &Arc<u8>) -> usize {
    Arc::as_ptr(token) as usize
}

/// `std::mem::forget`: gives the handle up without counting it down, so that its
/// allocation is never handed back and its place is never used again.
#[verifier::external_body]
fn keep_for_good(token: Arc<u8>) {
    std::mem::forget(token)
}

/// The environments of one program. An environment is created here, stays here for good
/// and is spoken of by its `Env`; whoever holds that reference sees every later change to
/// it. A heap has an identity, which every reference to one of its environments carries:
/// to another heap such a reference means nothing.
pub struct Heap {
    realm: usize,
    frames: Vec<Frame>,
}

impl Heap {
    /// What the environments hold, in the order in which they were created.
    pub closed spec fn scopes(&self) -> Seq<Scope> {
        self.frames@.map_values(|f: Frame| f.scope())
    }

    /// The identity of the heap. It is the place of an allocation that the heap made for
    /// itself and that is never handed back, so no two heaps of a program have the same.
    pub closed spec fn identity(&self) -> usize {
        self.realm
    }

    /// A heap holds no more environments than can be counted.
    pub proof fn lemma_len_fits(&self)
        ensures
            self@.len() <= usize::MAX,
    {
        vstd::std_specs::vec::axiom_spec_len(&self.frames);
        assert(self.scopes().len() == self.frames.len());
    }

    /// No environment yet.
    pub fn new() -> (r: Heap)
        ensures
            r@ == Seq::<Scope>::empty(),
    {
        let token = Arc::new(0u8);
        let realm = place_of(&token);
        keep_for_good(token);
        Heap { realm, frames: Vec::new() }
    }

    /// Whether `env` refers to an environment of this heap.
    pub fn contains(&self, env: Env) -> (r: bool)
        ensures
            r == known(self@, env),
    {
        env.index() < self.frames.len() && self.frames[env.index()].home == env.heap()
    }

    /// Creates an environment without a parent.
    pub fn root(&mut self) -> (r: Env)
        ensures
            r == next_env(old(self)@, old(self).identity()),
            r.index() == old(self)@.len(),
            r.heap() == old(self).identity(),
            final(self)@ == root_of(old(self)@, old(self).identity()),
            final(self).identity() == old(self).identity(),
            keeps(old(self)@, final(self)@),
            known(final(self)@, r),
    {
        let id = self.frames.len();
        self.frames.push(Frame { bindings: Vec::new(), parent: None, home: self.realm });
        Env { heap: self.realm, id }
    }

    /// Creates an environment that binds nothing itself and hands lookups on to `parent`.
    pub fn child(&mut self, parent: Env) -> (r: Env)
        requires
            known(old(self)@, parent),
        ensures
            r == next_env(old(self)@, parent.heap()),
            r.index() == old(self)@.len(),
            r.heap() == parent.heap(),
            final(self)@ == child_of(old(self)@, parent),
            final(self).identity() == old(self).identity(),
            keeps(old(self)@, final(self)@),
            known(final(self)@, r),
    {
        let id = self.frames.len();
        self.frames.push(Frame { bindings: Vec::new(), parent: Some(parent), home: parent.heap() });
        Env { heap: parent.heap(), id }
    }

    /// The environment that owns `name` as seen from `env`, and the place of the binding
    /// in it.
    fn find(&self, env: Env, name: &Symbol) -> (r: Option<(Env, usize)>)
        ensures
            match r {
                Some((owner, k)) => owner_of(self@, env, name@) == Some(owner) && known(
                    self@,
                    owner,
                ) && owner.index() < self.frames.len() && k
                    < self.frames[owner.index() as int].bindings.len()
                    && self.frames[owner.index() as int].bindings[k as int].0@ == name@
                    && self@[owner.index() as int].vars[name@]
                    == self.frames[owner.index() as int].bindings[k as int].1@,
                None => owner_of(self@, env, name@) is None,
            },
    {
        let mut cur = env;
        loop
            invariant
                owner_of(self@, cur, name@) == owner_of(self@, env, name@),
            decreases cur.index(),
        {
            if !self.contains(cur) {
                return None;
            }
            let frame = &self.frames[cur.index()];
            assert(self@[cur.index() as int] == frame.scope());
            match slot_of(&frame.bindings, name) {
                Some(k) => {
                    return Some((cur, k));
                },
                None => match frame.parent {
                    Some(parent) => {
                        if parent.index() < cur.index() {
                            cur = parent;
                        } else {
                            return None;
                        }
                    },
                    None => {
                        return None;
                    },
                },
            }
        }
    }

    /// The value of `name` as seen from `env`, or `UnboundSymbol` with the name where no
    /// environment on the way outwards binds it.
    pub fn lookup(&self, env: Env, name: &Symbol) -> (r: Result<Value, RuntimeError>)
        ensures
            outcome(r) == lookup_in(self@, env, name@),
    {
        match self.find(env, name) {
            Some((owner, k)) => Ok(self.frames[owner.index()].bindings[k].1.clone()),
            None => Err(RuntimeError::UnboundSymbol(name.clone())),
        }
    }

    /// Binds `name` to `value` in `env` itself, whether or not `env` or an environment
    /// further out binds the name already. No other environment changes.
    pub fn define(&mut self, env: Env, name: Symbol, value: Value)
        requires
            known(old(self)@, env),
        ensures
            final(self)@ == define_in(old(self)@, env, name@, value@),
            final(self).identity() == old(self).identity(),
            keeps(old(self)@, final(self)@),
    {
        let ghost before = self.frames@[env.index() as int].bindings@;
        let ghost entry = (name, value);
        match slot_of(&self.frames[env.index()].bindings, &name) {
            Some(k) => {
                self.frames[env.index()].bindings[k] = (name, value);
                proof {
                    lemma_table_replace(before, k as int, entry);
                }
            },
            None => {
                self.frames[env.index()].bindings.push((name, value));
                assert(self.frames@[env.index() as int].bindings@.drop_last() =~= before);
            },
        }
    }

    /// Binds `name` to `value` in the nearest environment that binds it already, as seen
    /// from `env`. Where none does, nothing changes and the result is `UnboundSymbol`
    /// with the name.
    pub fn set(&mut self, env: Env, name: &Symbol, value: Value) -> (r: Result<(), RuntimeError>)
        ensures
            final(self)@ == set_in(old(self)@, env, name@, value@),
            final(self).identity() == old(self).identity(),
            keeps(old(self)@, final(self)@),
            owner_of(old(self)@, env, name@) is Some ==> r is Ok,
            owner_of(old(self)@, env, name@) is None ==> (r matches Err(e) && e@
                == Fault::UnboundSymbol(name@)),
    {
        match self.find(env, name) {
            Some((owner, _)) => {
                self.define(owner, name.clone(), value);
                Ok(())
            },
            None => Err(RuntimeError::UnboundSymbol(name.clone())),
        }
    }
}

impl View for Heap {
    type V = Seq<Scope>;

    open spec fn view(&self) -> Seq<Scope> {
        self.scopes()
    }
}

} // verus!
