//! A mutual-exclusion primitive usable without any blocking primitive
//! beneath it.
//!
//! On hardware the lock spins on an atomic flag; locking an already-held
//! lock from the same thread of control would spin forever, so here that
//! call is excluded outright, and the protected data is reachable only while
//! the lock is held.

use vstd::prelude::*;

verus! {

/// A spinlock around a value of type `T`.
#[derive(Debug)]
pub struct Mutex<T> {
    locked: bool,
    data: T,
}

impl<T> Mutex<T> {
    /// Whether the lock is currently held.
    pub closed spec fn locked_spec(self) -> bool {
        self.locked
    }

    /// The protected value.
    pub closed spec fn inner(self) -> T {
        self.data
    }

    /// A new, unlocked mutex protecting `data`.
    pub fn new(data: T) -> (m: Mutex<T>)
        ensures
            !m.locked_spec(),
            m.inner() == data,
    {
        Mutex { locked: false, data }
    }

    /// Acquires the lock.  Acquiring a lock this control path already holds
    /// would spin forever, so the lock must be free.
    pub fn lock(&mut self)
        requires
            !old(self).locked_spec(),
        ensures
            final(self).locked_spec(),
            final(self).inner() == old(self).inner(),
    {
        self.locked = true;
    }

    /// Attempts to acquire the lock once: succeeds exactly when it was free.
    pub fn try_lock(&mut self) -> (r: bool)
        ensures
            r == !old(self).locked_spec(),
            final(self).locked_spec(),
            final(self).inner() == old(self).inner(),
    {
        if self.locked {
            false
        } else {
            self.locked = true;
            true
        }
    }

    /// Whether the lock is held, without taking it.
    pub fn is_locked(&self) -> (r: bool)
        ensures
            r == self.locked_spec(),
    {
        self.locked
    }

    /// Releases a held lock, publishing the writes made under it.
    pub fn unlock(&mut self)
        requires
            old(self).locked_spec(),
        ensures
            !final(self).locked_spec(),
            final(self).inner() == old(self).inner(),
    {
        self.locked = false;
    }

    /// Reads the protected value; the lock must be held.
    pub fn borrow_data(&self) -> (r: &T)
        requires
            self.locked_spec(),
        ensures
            *r == self.inner(),
    {
        &self.data
    }

    /// Writes the protected value; the lock must be held.
    pub fn set_data(&mut self, data: T)
        requires
            old(self).locked_spec(),
        ensures
            final(self).locked_spec(),
            final(self).inner() == data,
    {
        self.data = data;
    }
}

} // verus!
