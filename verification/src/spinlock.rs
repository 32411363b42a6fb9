//! Per-bucket re-entry guard for the signal path. The lock state is a
//! single flag: a failed `try_lock` means the bucket is busy and the sample
//! is dropped rather than ever waiting inside a signal handler.

use vstd::prelude::*;

verus! {

pub struct SpinLock {
    pub locked: bool,
}

impl SpinLock {
    pub fn new() -> (r: Self)
        ensures
            !r.locked,
    {
        SpinLock { locked: false }
    }

    /// Take the lock exactly when it is free; never waits.
    pub fn try_lock(&mut self) -> (r: bool)
        ensures
            r == !old(self).locked,
            final(self).locked,
    {
        if self.locked {
            false
        } else {
            self.locked = true;
            true
        }
    }

    /// Take a free lock.
    pub fn lock(&mut self)
        requires
            !old(self).locked,
        ensures
            final(self).locked,
    {
        self.locked = true;
    }

    pub fn unlock(&mut self)
        ensures
            !final(self).locked,
    {
        self.locked = false;
    }

    /// Take the lock exactly when it is free, handing back a token for the
    /// critical section. The token is a marker: the holder unlocks
    /// explicitly when the section ends.
    pub fn try_lock_with_guard(&mut self) -> (r: Option<LockGuard>)
        ensures
            r is Some <==> !old(self).locked,
            final(self).locked,
    {
        if self.try_lock() {
            Some(LockGuard {  })
        } else {
            None
        }
    }

    pub fn is_locked(&self) -> (r: bool)
        ensures
            r == self.locked,
    {
        self.locked
    }
}

/// A token for a held lock.
pub struct LockGuard {}

impl LockGuard {
    pub fn new() -> (r: Self) {
        LockGuard {  }
    }
}

} // verus!
