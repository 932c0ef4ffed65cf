//! The raw lock, the poisoning mutex built on it, and its guards.
use vstd::prelude::*;

use crate::sys::{Signal, ThreadHandle};

verus! {

/// The owner after one acquisition attempt by `t`: the slot is taken only if
/// it was empty.
pub open spec fn after_attempt(owner: Option<ThreadHandle>, t: ThreadHandle) -> Option<ThreadHandle> {
    if owner is None {
        Some(t)
    } else {
        owner
    }
}

/// The owner after acquisition attempts by the threads of `ts`, in order.
pub open spec fn after_attempts(owner: Option<ThreadHandle>, ts: Seq<ThreadHandle>) -> Option<ThreadHandle>
    decreases ts.len(),
{
    if ts.len() == 0 {
        owner
    } else {
        after_attempt(after_attempts(owner, ts.drop_last()), ts.last())
    }
}

/// Once `me` has acquired a free lock, no sequence of acquisition attempts
/// moves ownership away from it before it unlocks. So a second `lock` by
/// `me` always finds the lock held by `me` (`is_held_by`): the self-deadlock
/// that `lock` excludes, never a success and never a wait for another thread.
pub proof fn lemma_relock_is_self_deadlock(owner: Option<ThreadHandle>, me: ThreadHandle, ts: Seq<ThreadHandle>)
    requires
        owner is None,
    ensures
        after_attempts(after_attempt(owner, me), ts) == Some(me),
    decreases ts.len(),
{
    if ts.len() > 0 {
        lemma_relock_is_self_deadlock(owner, me, ts.drop_last());
    }
}

/// Ownership slot of a lock: empty, or the handle of the thread holding it.
pub struct RawMutex {
    owner: Option<ThreadHandle>,
}

impl View for RawMutex {
    type V = Option<ThreadHandle>;

    closed spec fn view(&self) -> Option<ThreadHandle> {
        self.owner
    }
}

impl RawMutex {
    /// A lock that nobody holds.
    pub fn new() -> (r: Self)
        ensures
            r@ is None,
    {
        RawMutex { owner: None }
    }

    /// Whether `me` holds the lock. Acquiring a lock that one already holds
    /// is a self-deadlock, which callers check for with this before `lock`.
    pub fn is_held_by(&self, me: ThreadHandle) -> (r: bool)
        ensures
            r == (self@ == Some(me)),
    {
        match self.owner {
            Some(h) => h == me,
            None => false,
        }
    }

    /// One attempt of `me` to acquire the lock. It succeeds exactly when the
    /// slot is empty; otherwise the caller waits on the lock's address and
    /// tries again after any wake-up, spurious ones included.
    pub fn lock(&mut self, me: ThreadHandle) -> (acquired: bool)
        requires
            old(self)@ != Some(me),
        ensures
            acquired == (old(self)@ is None),
            final(self)@ == (if acquired { Some(me) } else { old(self)@ }),
            final(self)@ == after_attempt(old(self)@, me),
    {
        match self.owner {
            None => {
                self.owner = Some(me);
                true
            },
            Some(_) => false,
        }
    }

    /// Releases the lock held by `me`: the slot is emptied first, then one
    /// waiter is to be woken.
    pub fn unlock(&mut self, me: ThreadHandle) -> (s: Signal)
        requires
            old(self)@ == Some(me),
        ensures
            final(self)@ is None,
            s == Signal::One,
    {
        self.owner = None;
        Signal::One
    }
}

/// A value guarded by a lock, with a poison flag that is set for good once a
/// holder fails while holding the lock.
pub struct Mutex<T> {
    raw: RawMutex,
    poisoned: bool,
    cell: T,
}

impl<T> Mutex<T> {
    /// The thread holding the lock, if any.
    pub closed spec fn owner(&self) -> Option<ThreadHandle> {
        self.raw@
    }

    /// Whether a holder has failed while holding the lock.
    pub closed spec fn is_poisoned(&self) -> bool {
        self.poisoned
    }

    /// The guarded value.
    pub closed spec fn value(&self) -> T {
        self.cell
    }

    /// The lock and the poison flag, all that is left alike when only the
    /// value changes.
    pub open spec fn same_lock_state(&self, other: &Mutex<T>) -> bool {
        self.owner() == other.owner() && self.is_poisoned() == other.is_poisoned()
    }

    /// An unlocked, unpoisoned mutex guarding `x`.
    pub fn new(x: T) -> (r: Self)
        ensures
            r.owner() is None,
            !r.is_poisoned(),
            r.value() == x,
    {
        Mutex { raw: RawMutex::new(), poisoned: false, cell: x }
    }

    /// Consumes the mutex and hands back the guarded value, poisoned or not.
    pub fn into_inner(self) -> (r: T)
        ensures
            r == self.value(),
    {
        self.cell
    }

    /// Direct access to the value through an exclusive borrow of the whole
    /// mutex: no locking and no poison check.
    pub fn get_mut(&mut self) -> (r: &mut T)
        ensures
            *r == old(self).value(),
            final(self).value() == *final(r),
            final(self).same_lock_state(old(self)),
    {
        &mut self.cell
    }

    /// Whether `me` holds the lock; taking it again would be a self-deadlock.
    pub fn is_held_by(&self, me: ThreadHandle) -> (r: bool)
        ensures
            r == (self.owner() == Some(me)),
    {
        self.raw.is_held_by(me)
    }

    /// Whether the mutex is poisoned.
    pub fn poisoned(&self) -> (r: bool)
        ensures
            r == self.is_poisoned(),
    {
        self.poisoned
    }

    /// One attempt of `me` to lock the mutex. `None`: another thread holds
    /// it, nothing changed, and the caller waits on the mutex's address
    /// before trying again. `Some`: `me` now holds it, and gets a guard,
    /// wrapped in `PoisonError` exactly when the mutex is poisoned.
    pub fn lock(&mut self, me: ThreadHandle) -> (r: Option<Result<MutexGuard, PoisonError<MutexGuard>>>)
        requires
            old(self).owner() != Some(me),
        ensures
            r is None <==> old(self).owner() is Some,
            r is None ==> *final(self) == *old(self),
            r is Some ==> final(self).owner() == Some(me),
            final(self).owner() == after_attempt(old(self).owner(), me),
            final(self).is_poisoned() == old(self).is_poisoned(),
            final(self).value() == old(self).value(),
            r matches Some(Ok(g)) ==> !old(self).is_poisoned() && g.holder() == me,
            r matches Some(Err(e)) ==> old(self).is_poisoned() && e.inner().holder() == me,
    {
        if !self.raw.lock(me) {
            return None;
        }
        let guard = MutexGuard { holder: me };
        if self.poisoned {
            Some(Err(PoisonError(guard)))
        } else {
            Some(Ok(guard))
        }
    }
}

/// A guard handed out by a poisoned mutex: the lock is held and the value is
/// reachable, but a former holder failed while holding it.
pub struct PoisonError<T>(T);

impl<T> PoisonError<T> {
    /// The wrapped guard.
    pub closed spec fn inner(&self) -> T {
        self.0
    }

    /// Accepts the poisoned state and takes the guard out.
    pub fn into_inner(self) -> (r: T)
        ensures
            r == self.inner(),
    {
        self.0
    }

    /// A shared borrow of the wrapped guard.
    pub fn get(&self) -> (r: &T)
        ensures
            *r == self.inner(),
    {
        &self.0
    }

    /// An exclusive borrow of the wrapped guard.
    pub fn get_mut(&mut self) -> (r: &mut T)
        ensures
            *r == old(self).inner(),
            final(self).inner() == *final(r),
    {
        &mut self.0
    }
}

/// Proof that a thread holds a mutex's lock. It is neither copied nor
/// cloned, and it is given back by `drop`, which releases the lock.
pub struct MutexGuard {
    holder: ThreadHandle,
}

impl MutexGuard {
    /// The thread that holds the lock.
    pub closed spec fn holder(&self) -> ThreadHandle {
        self.holder
    }

    /// Shared access to the value of the mutex that this guard locks.
    pub fn deref<'a, T>(&self, m: &'a Mutex<T>) -> (r: &'a T)
        requires
            m.owner() == Some(self.holder()),
        ensures
            *r == m.value(),
    {
        &m.cell
    }

    /// Exclusive access to the value of the mutex that this guard locks.
    pub fn deref_mut<'a, T>(&self, m: &'a mut Mutex<T>) -> (r: &'a mut T)
        requires
            old(m).owner() == Some(self.holder()),
        ensures
            *r == old(m).value(),
            final(m).value() == *final(r),
            final(m).same_lock_state(old(m)),
    {
        &mut m.cell
    }

    /// Releases the lock on every way out of the holder's critical section.
    /// If the holder is failing (`panicking`), the mutex is poisoned first,
    /// for good; then the lock is released and one waiter is to be woken.
    pub fn drop<T>(self, m: &mut Mutex<T>, panicking: bool) -> (s: Signal)
        requires
            old(m).owner() == Some(self.holder()),
        ensures
            final(m).owner() is None,
            final(m).is_poisoned() == (old(m).is_poisoned() || panicking),
            final(m).value() == old(m).value(),
            s == Signal::One,
    {
        if panicking {
            m.poisoned = true;
        }
        m.raw.unlock(self.holder)
    }
}

} // verus!
