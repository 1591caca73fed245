//! A one-shot value that can be awaited: set once, read by every poll after that, and
//! waking every task that polled before it was set.
//!
//! The shared state sits behind vstd's verified [`RwLock`]; the decisions taken while it
//! is held are those of [`Inside`].

use vstd::prelude::*;
use vstd::rwlock::{RwLock, RwLockPredicate};

use std::sync::Arc;
use std::task::Waker;

verus! {

#[verifier::external_type_specification]
#[verifier::external_body]
pub struct ExWaker(Waker);

/// Wakes the task behind `w` (`Waker::wake`).
#[verifier::external_body]
fn waker_wake(w: Waker) {
    w.wake()
}

/// Another handle to the same shared value (`<Arc<T> as Clone>::clone`).
#[verifier::external_body]
fn arc_clone<T>(a: &Arc<T>) -> (r: Arc<T>)
    ensures
        r == *a,
{
    a.clone()
}

/// The shared state of a [`OnceTardis`]: the value once set, and the wakers of the tasks
/// waiting for it.
pub struct Inside<T> {
    pub val: Option<T>,
    pub wakers: Vec<Waker>,
}

/// The state after setting `v`: only the first value set is kept, and setting it lets go
/// of every waiting waker.
pub open spec fn after_set<T>(val: Option<T>, wakers: Seq<Waker>, v: T) -> (Option<T>, Seq<Waker>) {
    if val is None {
        (Some(v), Seq::empty())
    } else {
        (val, wakers)
    }
}

/// The wakers that setting `v` wakes: all that were waiting, if this is the first value.
pub open spec fn woken_by_set<T>(val: Option<T>, wakers: Seq<Waker>, v: T) -> Seq<Waker> {
    if val is None {
        wakers
    } else {
        Seq::empty()
    }
}

/// The state after a poll with waker `w`: a poll before the value is set leaves its waker.
pub open spec fn after_poll<T>(val: Option<T>, wakers: Seq<Waker>, w: Waker) -> (Option<T>, Seq<Waker>) {
    if val is None {
        (val, wakers.push(w))
    } else {
        (val, wakers)
    }
}

impl<T> Inside<T> {
    /// An empty state: no value, nobody waiting.
    pub fn new() -> (r: Self)
        ensures
            r.val is None,
            r.wakers@.len() == 0,
    {
        Inside { val: None, wakers: Vec::new() }
    }

    /// Sets the value if none was set yet, handing back the wakers to wake.
    pub fn set(&mut self, v: T) -> (r: Vec<Waker>)
        ensures
            (final(self).val, final(self).wakers@) == after_set(old(self).val, old(self).wakers@, v),
            r@ == woken_by_set(old(self).val, old(self).wakers@, v),
    {
        if self.val.is_none() {
            self.val = Some(v);
            let mut taken: Vec<Waker> = Vec::new();
            std::mem::swap(&mut taken, &mut self.wakers);
            taken
        } else {
            Vec::new()
        }
    }

    /// Reads the value if it is set; otherwise records `w` to be woken when it is.
    pub fn poll(&mut self, w: Waker) -> (r: Option<T>)
        where T: Clone,
        ensures
            (final(self).val, final(self).wakers@) == after_poll(old(self).val, old(self).wakers@, w),
            match old(self).val {
                Some(v) => r matches Some(c) && cloned(v, c),
                None => r is None,
            },
    {
        match &self.val {
            Some(v) => Some(v.clone()),
            None => {
                self.wakers.push(w);
                None
            },
        }
    }
}

impl<T> Default for Inside<T> {
    /// An empty state, as [`Inside::new`] makes it.
    fn default() -> (r: Self)
        ensures
            r.val is None,
            r.wakers@.len() == 0,
    {
        Inside::new()
    }
}

/// The invariant of the shared state: once the value is set, no task is left waiting.
pub struct NoneWaitingOnceSet;

impl<T> RwLockPredicate<Inside<T>> for NoneWaitingOnceSet {
    open spec fn inv(self, v: Inside<T>) -> bool {
        v.val is Some ==> v.wakers@.len() == 0
    }
}

/// A value that is set once and can be awaited from any number of tasks.
pub struct OnceTardis<T> {
    inside: Arc<RwLock<Inside<T>, NoneWaitingOnceSet>>,
}

impl<T> OnceTardis<T> {
    /// A new, unset value.
    pub fn new() -> Self {
        OnceTardis { inside: Arc::new(RwLock::new(Inside::new(), Ghost(NoneWaitingOnceSet))) }
    }

    /// Sets the value, unless one was set already, and wakes every task waiting for it.
    pub fn set(&self, val: T) {
        let (mut inside, handle) = self.inside.acquire_write();
        let wakers = inside.set(val);
        let mut wakers = wakers;
        // The tasks are woken in the order they started waiting.
        while wakers.len() > 0
            decreases wakers@.len(),
        {
            let w = wakers.remove(0);
            waker_wake(w);
        }
        handle.release_write(inside);
    }

    /// Reads the value if it is set; otherwise arranges for `waker` to be woken when it is.
    pub fn poll_with(&self, waker: Waker) -> Option<T>
        where T: Clone,
    {
        let (mut inside, handle) = self.inside.acquire_write();
        let r = inside.poll(waker);
        handle.release_write(inside);
        r
    }
}

impl<T> Default for OnceTardis<T> {
    /// A new, unset value, as [`OnceTardis::new`] makes it.
    fn default() -> (r: Self) {
        OnceTardis::new()
    }
}

impl<T> Clone for OnceTardis<T> {
    /// Another handle to the same value.
    fn clone(&self) -> (r: Self)
        ensures
            r == *self,
    {
        OnceTardis { inside: arc_clone(&self.inside) }
    }
}

/// Only the first value set is kept: once a value is set, setting another changes nothing
/// and wakes nobody, and polling does not change it either.
pub proof fn lemma_set_once<T>(val: Option<T>, wakers: Seq<Waker>, a: T, b: T, w: Waker)
    ensures
        after_set(after_set(val, wakers, a).0, after_set(val, wakers, a).1, b) == after_set(val, wakers, a),
        woken_by_set(after_set(val, wakers, a).0, after_set(val, wakers, a).1, b).len() == 0,
        after_poll(after_set(val, wakers, a).0, after_set(val, wakers, a).1, w) == after_set(val, wakers, a),
        val is None ==> after_set(val, wakers, a).0 == Some(a),
{
}

/// No task is forgotten: every waker left by a poll before the value is set is among
/// those woken by setting it.
pub proof fn lemma_waiting_tasks_woken<T>(wakers: Seq<Waker>, w: Waker, v: T)
    ensures
        woken_by_set(after_poll::<T>(None, wakers, w).0, after_poll::<T>(None, wakers, w).1, v) == wakers.push(w),
        after_set(after_poll::<T>(None, wakers, w).0, after_poll::<T>(None, wakers, w).1, v).1.len() == 0,
{
}

} // verus!
