//! Nested systems: systems run from inside other systems, each at most once at a time,
//! and only when their data access is compatible with every system still running up the
//! call stack.
//!
//! The registry keeps each registered system in a slot that is emptied while the system
//! runs; the access stack records the systems that are running. Running a system is the
//! caller's work: [`NestedSystemRegistry::take`] and [`AccessStack::enter`] decide
//! whether it may run, [`NestedSystemRegistry::restore`] puts it back afterwards.

use vstd::prelude::*;

use crate::conflicts::{access_clone, access_is_compatible, accesses_compatible, AccessDiags, SystemAccess};

verus! {

/// A value that is either stored or currently lent out.
#[derive(Debug, Copy, Clone)]
pub enum Cached<S> {
    Stored(S),
    InUse,
}

/// The value a slot holds, if it is stored.
pub open spec fn cached_value<S>(c: Cached<S>) -> Option<S> {
    match c {
        Cached::Stored(s) => Some(s),
        Cached::InUse => None,
    }
}

impl<S> Cached<S> {
    /// A slot holding `s`.
    pub fn new(s: S) -> (r: Self)
        ensures
            r == Cached::Stored(s),
    {
        Cached::Stored(s)
    }

    /// Lends out the stored value, leaving the slot in use; `None` when it was in use already.
    pub fn take(&mut self) -> (r: Option<S>)
        ensures
            r == cached_value(*old(self)),
            *final(self) == Cached::<S>::InUse,
    {
        let mut swap = Cached::InUse;
        std::mem::swap(&mut swap, self);
        Option::from(swap)
    }
}

impl<S> From<Cached<S>> for Option<S> {
    /// The stored value, if any.
    fn from(value: Cached<S>) -> (r: Option<S>) {
        match value {
            Cached::Stored(s) => Some(s),
            Cached::InUse => None,
        }
    }
}

impl<S> vstd::std_specs::convert::FromSpecImpl<Cached<S>> for Option<S> {
    open spec fn obeys_from_spec() -> bool {
        true
    }

    open spec fn from_spec(v: Cached<S>) -> Option<S> {
        cached_value(v)
    }
}

/// The index of a registered nested system.
#[derive(Debug, Copy, Clone, PartialEq, Eq, Hash, PartialOrd, Ord, Structural)]
pub struct NestedSystemId(pub usize);

/// Why a nested system may not run.
#[derive(Debug, Copy, Clone, PartialEq, Eq, Structural)]
pub enum NestedRunError {
    /// No system was registered under the id.
    InvalidId,
    /// The system is already running, directly or indirectly calling itself.
    Reentrant,
}

/// Every registered nested system, each in its slot.
pub struct NestedSystemRegistry<S> {
    pub store: Vec<Cached<S>>,
}

/// The outcome of taking system `id` out of the slots `store`.
pub open spec fn take_outcome<S>(store: Seq<Cached<S>>, id: usize) -> Result<S, NestedRunError> {
    if id >= store.len() {
        Err(NestedRunError::InvalidId)
    } else {
        match store[id as int] {
            Cached::Stored(s) => Ok(s),
            Cached::InUse => Err(NestedRunError::Reentrant),
        }
    }
}

/// The slots after taking system `id` out.
pub open spec fn after_take<S>(store: Seq<Cached<S>>, id: usize) -> Seq<Cached<S>> {
    if id < store.len() {
        store.update(id as int, Cached::InUse)
    } else {
        store
    }
}

impl<S> NestedSystemRegistry<S> {
    /// An empty registry.
    pub fn new() -> (r: Self)
        ensures
            r.store@.len() == 0,
    {
        NestedSystemRegistry { store: Vec::new() }
    }

    /// Registers a system and gives back its id, the next free index.
    pub fn register_system(&mut self, sys: S) -> (r: NestedSystemId)
        requires
            old(self).store@.len() < usize::MAX,
        ensures
            final(self).store@ == old(self).store@.push(Cached::Stored(sys)),
            r.0 == old(self).store@.len(),
    {
        self.store.push(Cached::new(sys));
        NestedSystemId(self.store.len() - 1)
    }

    /// Takes system `id` out of its slot to run it.
    pub fn take(&mut self, id: NestedSystemId) -> (r: Result<S, NestedRunError>)
        ensures
            r == take_outcome(old(self).store@, id.0),
            final(self).store@ == after_take(old(self).store@, id.0),
    {
        if id.0 >= self.store.len() {
            return Err(NestedRunError::InvalidId);
        }
        let mut slot = Cached::InUse;
        std::mem::swap(&mut slot, &mut self.store[id.0]);
        match Option::from(slot) {
            Some(s) => Ok(s),
            None => Err(NestedRunError::Reentrant),
        }
    }

    /// Puts system `id` back into its slot once it has run.
    pub fn restore(&mut self, id: NestedSystemId, sys: S)
        requires
            id.0 < old(self).store@.len(),
        ensures
            final(self).store@ == old(self).store@.update(id.0 as int, Cached::Stored(sys)),
    {
        self.store.set(id.0, Cached::new(sys));
    }
}

/// A system that was taken out cannot be taken again until it is put back: it cannot
/// call itself, directly or through other nested systems.
pub proof fn lemma_no_reentry<S>(store: Seq<Cached<S>>, id: usize)
    requires
        take_outcome(store, id) is Ok,
    ensures
        take_outcome(after_take(store, id), id) == Err::<S, NestedRunError>(NestedRunError::Reentrant),
{
}

/// Putting a system back lets it be taken again, as the same system, and leaves every
/// other slot as it was.
pub proof fn lemma_restore_then_take<S>(store: Seq<Cached<S>>, id: usize, sys: S, other: usize)
    requires
        id < store.len(),
        other != id,
    ensures
        take_outcome(store.update(id as int, Cached::Stored(sys)), id) == Ok::<S, NestedRunError>(sys),
        take_outcome(store.update(id as int, Cached::Stored(sys)), other) == take_outcome(store, other),
{
}

/// The systems still running up the call stack, by name and access.
pub struct AccessStack {
    pub entries: Vec<(String, SystemAccess)>,
}

/// The running systems whose access is not compatible with `new`, in stack order.
pub open spec fn incompatible_entries(entries: Seq<(String, SystemAccess)>, new: SystemAccess) -> Seq<(String, SystemAccess)> {
    entries.filter(|e: (String, SystemAccess)| !accesses_compatible(new, e.1))
}

/// No two systems on the stack have conflicting accesses: each was let in only when it
/// was compatible with every system below it.
pub open spec fn stack_compatible(entries: Seq<(String, SystemAccess)>) -> bool {
    forall|i: int, j: int| 0 <= i < j < entries.len() ==> accesses_compatible(#[trigger] entries[j].1, #[trigger] entries[i].1)
}

impl AccessStack {
    /// An empty stack.
    pub fn new() -> (r: Self)
        ensures
            r.entries@.len() == 0,
            stack_compatible(r.entries@),
    {
        AccessStack { entries: Vec::new() }
    }

    /// Takes the system on top of the stack off it once it has finished running, so that
    /// it no longer counts against systems let in later; `None` on an empty stack.
    pub fn leave(&mut self) -> (r: Option<(String, SystemAccess)>)
        ensures
            old(self).entries@.len() == 0 ==> r is None && final(self).entries@ == old(self).entries@,
            old(self).entries@.len() > 0 ==> {
                &&& r == Some(old(self).entries@.last())
                &&& final(self).entries@ == old(self).entries@.drop_last()
            },
            stack_compatible(old(self).entries@) ==> stack_compatible(final(self).entries@),
    {
        self.entries.pop()
    }

    /// Lets the system `name` with access `access` run on top of the stack if its access is
    /// compatible with every running system's, recording it; otherwise refuses it and names
    /// the systems it conflicts with, leaving the stack unchanged.
    pub fn enter(&mut self, name: String, access: SystemAccess) -> (r: Result<(), Vec<AccessDiags>>)
        ensures
            stack_compatible(old(self).entries@) ==> stack_compatible(final(self).entries@),
            match r {
                Ok(()) => {
                    &&& incompatible_entries(old(self).entries@, access).len() == 0
                    &&& final(self).entries@ == old(self).entries@.push((name, access))
                },
                Err(conflicts) => {
                    let bad = incompatible_entries(old(self).entries@, access);
                    &&& bad.len() > 0
                    &&& final(self).entries@ == old(self).entries@
                    &&& conflicts@.len() == bad.len()
                    &&& forall|k: int| 0 <= k < bad.len() ==> {
                        &&& (#[trigger] conflicts@[k]).name@ == bad[k].0@
                        &&& conflicts@[k].access == bad[k].1
                    }
                },
            },
    {
        let ghost es = self.entries@;
        let ghost pred = |e: (String, SystemAccess)| !accesses_compatible(access, e.1);
        let mut conflicts: Vec<AccessDiags> = Vec::new();
        let mut i: usize = 0;
        while i < self.entries.len()
            invariant
                self.entries@ == es,
                pred == (|e: (String, SystemAccess)| !accesses_compatible(access, e.1)),
                i <= es.len(),
                conflicts@.len() == es.subrange(0, i as int).filter(pred).len(),
                forall|k: int| 0 <= k < conflicts@.len() ==> {
                    &&& (#[trigger] conflicts@[k]).name@ == es.subrange(0, i as int).filter(pred)[k].0@
                    &&& conflicts@[k].access == es.subrange(0, i as int).filter(pred)[k].1
                },
            decreases es.len() - i,
        {
            proof {
                assert(es.subrange(0, i + 1) =~= es.subrange(0, i as int).push(es[i as int]));
                es.subrange(0, i as int).lemma_filter_push(es[i as int], pred);
            }
            if !access_is_compatible(&access, &self.entries[i].1) {
                let d = AccessDiags::new(self.entries[i].0.clone(), access_clone(&self.entries[i].1));
                conflicts.push(d);
            }
            i = i + 1;
        }
        proof {
            assert(es.subrange(0, es.len() as int) =~= es);
        }
        if conflicts.len() > 0 {
            Err(conflicts)
        } else {
            proof {
                assert forall|k: int| 0 <= k < es.len() implies accesses_compatible(access, #[trigger] es[k].1) by {
                    if !accesses_compatible(access, es[k].1) {
                        es.lemma_filter_contains(pred, k);
                        assert(es.filter(pred).contains(es[k]));
                        assert(false);
                    }
                }
            }
            self.entries.push((name, access));
            proof {
                let t = self.entries@;
                assert(t == es.push((name, access)));
                if stack_compatible(es) {
                    assert forall|i: int, j: int| 0 <= i < j < t.len() implies accesses_compatible(#[trigger] t[j].1, #[trigger] t[i].1) by {
                        if j < es.len() {
                            assert(t[j] == es[j]);
                            assert(t[i] == es[i]);
                        } else {
                            assert(t[j].1 == access);
                            assert(t[i] == es[i]);
                        }
                    }
                }
            }
            Ok(())
        }
    }
}

/// A whole nested run leaves things as it found them: taking the system out, letting
/// it onto the stack, then putting it back and taking it off the stack again restores
/// both the registry's slots and the stack.
pub proof fn lemma_nested_run_restores<S>(
    store: Seq<Cached<S>>,
    entries: Seq<(String, SystemAccess)>,
    id: usize,
    entered: (String, SystemAccess),
)
    requires
        take_outcome(store, id) is Ok,
    ensures
        after_take(store, id).update(id as int, Cached::Stored(take_outcome(store, id)->Ok_0)) == store,
        entries.push(entered).drop_last() == entries,
{
    assert(after_take(store, id).update(id as int, Cached::Stored(take_outcome(store, id)->Ok_0)) =~= store);
    assert(entries.push(entered).drop_last() =~= entries);
}

} // verus!
