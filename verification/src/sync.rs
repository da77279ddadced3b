//! The spinlock that guards process-wide state shared between mainline code
//! and the interrupt path.
//!
//! The lock is modelled so that its exclusion discipline is checked: a
//! successful acquisition moves the guarded value into the guard, and while
//! the lock is held every further `try_lock` reports contention. `lock`
//! requires the lock to be free — acquiring a lock the same core already
//! holds would spin forever, which is exactly the overlap the design rules
//! out between mainline and interrupt context.

use vstd::prelude::*;
use vstd::pervasive::unreached;

verus! {

/// Reported by `try_lock` when the lock is already held.
pub struct SpinMutexErr(pub &'static str);

/// Exclusive access to the guarded value. At most one guard is live per
/// mutex at any instant; `unlock` is the single release path and restores
/// the value. Unlike a release tied to the guard's destruction, this
/// release is explicit: a guard that merely goes out of scope leaves the
/// mutex locked for good, so every exit path must call `unlock`. (A
/// destructor cannot carry the proof obligations the release needs.)
pub struct SpinMutexGuard<T> {
    pub data: T,
}

/// A busy-wait mutex over one flag, wrapping the value it guards.
pub struct SpinMutex<T> {
    locked: bool,
    data: Option<T>,
}

impl<T> SpinMutex<T> {
    /// The flag is set exactly while a guard is live, and the value is held
    /// by the mutex exactly while no guard is live.
    pub closed spec fn wf(self) -> bool {
        self.locked <==> self.data is None
    }

    /// Whether a guard is currently live.
    pub closed spec fn is_locked(self) -> bool {
        self.locked
    }

    /// The guarded value, while no guard is live.
    pub closed spec fn value(self) -> T {
        self.data->Some_0
    }

    pub fn new(data: T) -> (r: SpinMutex<T>)
        ensures
            r.wf(),
            !r.is_locked(),
            r.value() == data,
    {
        SpinMutex { locked: false, data: Some(data) }
    }

    /// Atomically tests and sets the flag. A free lock yields the guard;
    /// a held one reports contention without blocking, and nothing changes.
    pub fn try_lock(&mut self) -> (r: Result<SpinMutexGuard<T>, SpinMutexErr>)
        requires
            old(self).wf(),
        ensures
            final(self).wf(),
            !old(self).is_locked() ==> final(self).is_locked() && (r matches Ok(g) && g.data
                == old(self).value()),
            old(self).is_locked() ==> final(self).is_locked() && r is Err,
    {
        if self.locked {
            Err(SpinMutexErr("lock error"))
        } else {
            self.locked = true;
            match self.data.take() {
                Some(data) => Ok(SpinMutexGuard { data }),
                None => unreached(),
            }
        }
    }

    /// Acquires the lock. The lock must be free: this core retrying a lock
    /// it already holds would never succeed.
    pub fn lock(&mut self) -> (g: SpinMutexGuard<T>)
        requires
            old(self).wf(),
            !old(self).is_locked(),
        ensures
            final(self).wf(),
            final(self).is_locked(),
            g.data == old(self).value(),
    {
        match self.try_lock() {
            Ok(guard) => guard,
            Err(_) => unreached(),
        }
    }
}

impl<T> SpinMutexGuard<T> {
    /// Releases the lock, restoring the (possibly updated) value to the
    /// mutex. Consuming the guard is the only release path.
    pub fn unlock(self, mutex: &mut SpinMutex<T>)
        requires
            old(mutex).wf(),
            old(mutex).is_locked(),
        ensures
            final(mutex).wf(),
            !final(mutex).is_locked(),
            final(mutex).value() == self.data,
    {
        mutex.data = Some(self.data);
        mutex.locked = false;
    }
}

} // verus!
