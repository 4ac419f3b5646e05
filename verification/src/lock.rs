//! Shared read/write handles over one value.
//!
//! A [`WLock`] is held by the single system that owns the right to
//! mutate a value; [`RLock`] handles derived from it give every other
//! system point-in-time read access.  The locks place no condition on
//! the protected value: the data invariants of this crate travel in the
//! contracts of the types the locks protect.

use std::sync::Arc;
use vstd::prelude::*;
use vstd::rwlock::{RwLock, RwLockPredicate, WriteHandle};

verus! {

/// Lock predicate that admits every value of the protected type.
#[derive(Clone, Copy)]
pub struct AnyState;

impl<V> RwLockPredicate<V> for AnyState {
    open spec fn inv(self, v: V) -> bool {
        true
    }
}

/// Shared read-only handle: a point-in-time view of a value owned elsewhere.
pub struct RLock<T>(Arc<RwLock<T, AnyState>>);

impl<T> RLock<T> {
    /// Wraps a value that will only ever be read.
    pub fn new(data: T) -> Self {
        RLock(Arc::new(RwLock::new(data, Ghost(AnyState))))
    }

    /// Returns a snapshot of the shared value at the moment of the call.
    pub fn read(&self) -> T where T: Clone {
        let handle = self.0.acquire_read();
        let value = handle.borrow().clone();
        handle.release_read();
        value
    }
}

impl<T> Clone for RLock<T> {
    fn clone(&self) -> Self {
        RLock(self.0.clone())
    }
}

/// Owning write handle over a shared value; readers are handed out
/// through [`WLock::get_reader`].
pub struct WLock<T>(Arc<RwLock<T, AnyState>>);

impl<T> WLock<T> {
    /// Wraps a value whose mutation this handle will guard.
    pub fn new(data: T) -> Self {
        WLock(Arc::new(RwLock::new(data, Ghost(AnyState))))
    }

    /// Hands out a read-only view onto the same shared value.
    pub fn get_reader(&self) -> RLock<T> {
        RLock(self.0.clone())
    }

    /// Returns a snapshot of the shared value at the moment of the call.
    pub fn read(&self) -> T where T: Clone {
        let handle = self.0.acquire_read();
        let value = handle.borrow().clone();
        handle.release_read();
        value
    }

    /// Takes the value out for exclusive mutation.  Readers block until
    /// the accompanying [`WriteGuard`] puts a value back.
    pub fn write(&self) -> (T, WriteGuard<'_, T>) {
        let (value, handle) = self.0.acquire_write();
        (value, WriteGuard { handle })
    }
}

impl<T> Clone for WLock<T> {
    fn clone(&self) -> Self {
        WLock(self.0.clone())
    }
}

/// Exclusive access obtained from [`WLock::write`]; releasing it stores
/// the updated value for the readers.
pub struct WriteGuard<'a, T> {
    handle: WriteHandle<'a, T, AnyState>,
}

impl<'a, T> WriteGuard<'a, T> {
    /// Stores `value` as the new shared state and releases the lock.
    pub fn put(self, value: T) {
        self.handle.release_write(value);
    }
}

} // verus!
