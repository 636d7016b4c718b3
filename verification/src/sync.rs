//! The reader-writer lock that guards each region of the store.
//!
//! The lock is `parking_lot`'s. Nothing here is proved: each item states what
//! the lock's own documentation says, and that is little, because what a lock
//! holds when it is taken depends on the other threads. What the verified code
//! knows of a guarded value is what holds of every value of its type.

use parking_lot::lock_api::RwLock;
use parking_lot::lock_api::RwLockReadGuard;
use parking_lot::lock_api::RwLockWriteGuard;
use parking_lot::RawRwLock;
use vstd::prelude::*;

verus! {

/// `parking_lot::RawRwLock`, the lock without its data. Nothing is claimed of
/// it.
#[verifier::external_type_specification]
#[verifier::external_body]
pub struct ExRawRwLock(RawRwLock);

/// `lock_api::RwLock`, of which `parking_lot::RwLock<T>` is the case
/// `R = RawRwLock`. Nothing is claimed of it: the value inside may change
/// whenever no guard is held.
#[verifier::external_type_specification]
#[verifier::external_body]
#[verifier::reject_recursive_types(R)]
#[verifier::reject_recursive_types(T)]
pub struct ExRwLock<R, T: ?Sized>(RwLock<R, T>);

/// Shared access to the value in a lock, from `RwLock::read` until the guard
/// is dropped. It holds a `parking_lot::RwLockReadGuard`.
#[verifier::external_body]
#[verifier::reject_recursive_types(T)]
pub struct ReadGuard<'a, T> {
    guard: RwLockReadGuard<'a, RawRwLock, T>,
}

/// Exclusive access to the value in a lock, from `RwLock::write` until the
/// guard is dropped. It holds a `parking_lot::RwLockWriteGuard`.
#[verifier::external_body]
#[verifier::reject_recursive_types(T)]
pub struct WriteGuard<'a, T> {
    guard: RwLockWriteGuard<'a, RawRwLock, T>,
}

/// `RwLock::new`: a lock, not taken, around `value`. Nothing is claimed of
/// the result.
#[verifier::external_body]
pub(crate) fn new_lock<T>(value: T) -> (lock: RwLock<RawRwLock, T>) {
    RwLock::new(value)
}

/// `RwLock::read`: waits until no writer holds the lock and returns shared
/// access. Nothing is claimed of the value found. The call may wait for ever
/// if the calling thread itself holds a guard of the lock; this library
/// never takes a lock while it holds a guard.
#[verifier::external_body]
pub(crate) fn lock_read<'a, T>(lock: &'a RwLock<RawRwLock, T>) -> (guard: ReadGuard<'a, T>) {
    ReadGuard { guard: lock.read() }
}

/// `RwLock::write`: waits until nobody else holds the lock and returns
/// exclusive access. Nothing is claimed of the value found. The call waits
/// for ever if the calling thread itself holds a guard of the lock; this
/// library never takes a lock while it holds a guard.
#[verifier::external_body]
pub(crate) fn lock_write<'a, T>(lock: &'a RwLock<RawRwLock, T>) -> (guard: WriteGuard<'a, T>) {
    WriteGuard { guard: lock.write() }
}

/// `Deref` of the read guard: the value in the lock. Nothing is claimed of it.
#[verifier::external_body]
pub(crate) fn guarded<'a, 'b, T>(guard: &'b ReadGuard<'a, T>) -> (value: &'b T) {
    &*guard.guard
}

/// `DerefMut` of the write guard: the value in the lock, to be changed in
/// place. Nothing is claimed of it.
#[verifier::external_body]
pub(crate) fn guarded_mut<'a, 'b, T>(guard: &'b mut WriteGuard<'a, T>) -> (value: &'b mut T) {
    &mut *guard.guard
}

} // verus!
