//! A cell that is written at most once, safely for concurrent first writers.
use vstd::prelude::*;

use crate::sys::{Signal, ThreadHandle};

verus! {

/// What a thread that asked for the cell's value is to do next.
#[derive(Clone, Copy, Debug, PartialEq, Eq, Structural)]
pub enum InitStep {
    /// The cell holds its value; read it.
    Ready,
    /// The caller has claimed the cell: it runs its initializer and then
    /// calls `commit` or `abandon`.
    Claimed,
    /// Another thread has claimed the cell: wait on the cell's address, then
    /// ask again.
    Wait,
}

/// What came of one `get_or_init` request.
pub enum InitOutcome<'a, T, E, F> {
    /// The cell already held this value.
    Ready(&'a T),
    /// This request's initializer produced the value, now stored; the signal
    /// says which waiters to wake.
    Stored(&'a T, Signal),
    /// This request's initializer failed with this error; the signal says
    /// which waiters to wake.
    Failed(E, Signal),
    /// Another thread is initializing the cell; the initializer is handed
    /// back for the next request.
    Wait(F),
}

/// A cell that starts empty and is written at most once. A thread that finds
/// it empty claims it, runs its initializer outside any lock, and then either
/// commits the value (the cell is initialized for good) or abandons the claim
/// (the cell is empty again).
pub struct SyncOnceCell<T> {
    claim: Option<ThreadHandle>,
    storage: Option<T>,
}

impl<T> SyncOnceCell<T> {
    /// The committed value, if any.
    pub closed spec fn value(&self) -> Option<T> {
        self.storage
    }

    /// The thread that is running the initializer, if any.
    pub closed spec fn claimant(&self) -> Option<ThreadHandle> {
        self.claim
    }

    /// An initialized cell is never claimed.
    pub open spec fn wf(&self) -> bool {
        self.value() is Some ==> self.claimant() is None
    }

    /// An empty, unclaimed cell.
    pub fn new() -> (r: Self)
        ensures
            r.value() is None,
            r.claimant() is None,
            r.wf(),
    {
        SyncOnceCell { claim: None, storage: None }
    }

    /// Consumes the cell: its value if it was initialized.
    pub fn into_inner(self) -> (r: Option<T>)
        ensures
            r == self.value(),
    {
        self.storage
    }

    /// The value, if the cell is initialized; never waits, never initializes.
    pub fn get(&self) -> (r: Option<&T>)
        ensures
            match r {
                Some(v) => self.value() == Some(*v),
                None => self.value() is None,
            },
    {
        match &self.storage {
            Some(v) => Some(v),
            None => None,
        }
    }

    /// Exclusive access to the value through an exclusive borrow of the cell,
    /// if it is initialized.
    pub fn get_mut(&mut self) -> (r: Option<&mut T>)
        ensures
            old(self).value() is None ==> r is None && *final(self) == *old(self),
            match r {
                Some(v) => old(self).value() == Some(*v) && final(self).value() == Some(*final(v))
                    && final(self).claimant() == old(self).claimant(),
                None => old(self).value() is None,
            },
    {
        match &mut self.storage {
            Some(v) => Some(v),
            None => None,
        }
    }

    /// One request of `me` for the value. `Ready`: the cell is initialized
    /// and stays as it was. `Claimed`: the cell was empty and unclaimed, and
    /// `me` now holds the claim. `Wait`: another claim is running, nothing
    /// changed.
    pub fn begin_init(&mut self, me: ThreadHandle) -> (s: InitStep)
        requires
            old(self).wf(),
        ensures
            final(self).wf(),
            final(self).value() == old(self).value(),
            s == (if old(self).value() is Some {
                InitStep::Ready
            } else if old(self).claimant() is None {
                InitStep::Claimed
            } else {
                InitStep::Wait
            }),
            final(self).claimant() == (if s == InitStep::Claimed { Some(me) } else { old(self).claimant() }),
    {
        if self.storage.is_some() {
            InitStep::Ready
        } else if self.claim.is_none() {
            self.claim = Some(me);
            InitStep::Claimed
        } else {
            InitStep::Wait
        }
    }

    /// The claimant's initializer returned `v`: the value is stored, the
    /// cell is initialized for good, the claim is released, and every
    /// waiter is to be woken.
    pub fn commit(&mut self, me: ThreadHandle, v: T) -> (s: Signal)
        requires
            old(self).wf(),
            old(self).claimant() == Some(me),
        ensures
            final(self).wf(),
            final(self).value() == Some(v),
            final(self).claimant() is None,
            s == Signal::All,
    {
        self.storage = Some(v);
        self.claim = None;
        Signal::All
    }

    /// The claimant's initializer failed: no value is stored, the claim is
    /// released, and one waiter is to be woken so that it may try in turn.
    pub fn abandon(&mut self, me: ThreadHandle) -> (s: Signal)
        requires
            old(self).wf(),
            old(self).claimant() == Some(me),
        ensures
            final(self).wf(),
            final(self).value() is None,
            final(self).claimant() is None,
            s == Signal::One,
    {
        self.claim = None;
        Signal::One
    }

    /// One request of `me` for the value, running `f` if `me` wins the
    /// claim. `Ready`: the cell was initialized; nothing changed and `f` is
    /// not called. `Stored`: the cell was empty and unclaimed, `f` returned a
    /// value, which is now stored for good; every waiter is to be woken.
    /// `Failed`: `f` failed; its error is handed back, the cell is empty and
    /// unclaimed again, and one waiter is to be woken so that it may try in
    /// turn. `Wait`: another thread holds the claim; nothing changed, `f` is
    /// handed back, and the caller waits on the cell's address and asks
    /// again after any wake-up.
    pub fn get_or_init<E, F: FnOnce() -> Result<T, E>>(&mut self, me: ThreadHandle, f: F) -> (r: InitOutcome<'_, T, E, F>)
        requires
            old(self).wf(),
            old(self).value() is None && old(self).claimant() is None ==> f.requires(()),
        ensures
            final(self).wf(),
            match r {
                InitOutcome::Ready(v) => old(self).value() == Some(*v) && *final(self) == *old(self),
                InitOutcome::Stored(v, s) => old(self).value() is None && old(self).claimant() is None
                    && f.ensures((), Ok(*v)) && final(self).value() == Some(*v)
                    && final(self).claimant() is None && s == Signal::All,
                InitOutcome::Failed(e, s) => old(self).value() is None && old(self).claimant() is None
                    && f.ensures((), Err(e)) && final(self).value() is None
                    && final(self).claimant() is None && s == Signal::One,
                InitOutcome::Wait(g) => old(self).value() is None && old(self).claimant() is Some
                    && *final(self) == *old(self) && g == f,
            },
    {
        match self.begin_init(me) {
            InitStep::Ready => InitOutcome::Ready(self.storage.as_ref().unwrap()),
            InitStep::Wait => InitOutcome::Wait(f),
            InitStep::Claimed => match f() {
                Ok(v) => {
                    let s = self.commit(me, v);
                    InitOutcome::Stored(self.storage.as_ref().unwrap(), s)
                },
                Err(e) => {
                    let s = self.abandon(me);
                    InitOutcome::Failed(e, s)
                },
            },
        }
    }
}

} // verus!
