//! The hybrid lock: parking_lot's `RwLock` for blocking access, and a version
//! counter that each completed exclusive section moves by one.
use crate::protocol::{admits, validate_optimistic};
use std::sync::atomic::{AtomicU64, Ordering};
use vstd::prelude::*;

verus! {

#[verifier::external_type_specification]
#[verifier::external_body]
#[verifier::reject_recursive_types(R)]
#[verifier::reject_recursive_types(T)]
pub struct ExRwLock<R, T: ?Sized>(parking_lot::lock_api::RwLock<R, T>);

#[verifier::external_type_specification]
#[verifier::external_body]
pub struct ExRawRwLock(parking_lot::RawRwLock);

/// Holds parking_lot's shared-access guard. Its type carries a bound on
/// lock_api's `RawRwLock` trait, so Verus cannot declare it; it is kept here
/// whole, and releases shared access when dropped.
#[verifier::external_body]
#[verifier::reject_recursive_types(T)]
struct SharedToken<'a, T> {
    guard: parking_lot::RwLockReadGuard<'a, T>,
}

/// Holds parking_lot's exclusive-access guard, for the same reason; releases
/// exclusive access when dropped.
#[verifier::external_body]
#[verifier::reject_recursive_types(T)]
struct ExclusiveToken<'a, T> {
    guard: parking_lot::RwLockWriteGuard<'a, T>,
}

/// Relies on parking_lot's `RwLock::new`: a lock that is not held, around `t`.
#[verifier::external_body]
fn new_rw_lock<T>(t: T) -> (r: parking_lot::RwLock<T>) {
    parking_lot::RwLock::new(t)
}

/// Relies on parking_lot's `RwLock::read`: blocks until no writer holds the
/// lock, then holds shared access.
#[verifier::external_body]
fn acquire_shared<T>(l: &parking_lot::RwLock<T>) -> (r: SharedToken<'_, T>) {
    SharedToken { guard: l.read() }
}

/// Relies on parking_lot's `RwLock::write`: blocks until nobody holds the
/// lock, then holds exclusive access.
#[verifier::external_body]
fn acquire_exclusive<T>(l: &parking_lot::RwLock<T>) -> (r: ExclusiveToken<'_, T>) {
    ExclusiveToken { guard: l.write() }
}

/// Relies on `Deref` of parking_lot's `RwLockReadGuard`: the protected value.
#[verifier::external_body]
fn shared_ref<'a, 'b, T>(t: &'b SharedToken<'a, T>) -> (r: &'b T) {
    &t.guard
}

/// Relies on `Deref` of parking_lot's `RwLockWriteGuard`: the protected value.
#[verifier::external_body]
fn exclusive_ref<'a, 'b, T>(t: &'b ExclusiveToken<'a, T>) -> (r: &'b T) {
    &t.guard
}

/// Relies on `DerefMut` of parking_lot's `RwLockWriteGuard`: the protected
/// value, mutably.
#[verifier::external_body]
fn exclusive_mut<'a, 'b, T>(t: &'b mut ExclusiveToken<'a, T>) -> (r: &'b mut T) {
    &mut t.guard
}

/// Relies on parking_lot's `RwLock::is_locked_exclusive`: whether a writer
/// holds the lock at this moment. Another thread may change that at any time,
/// so nothing is stated of the answer.
#[verifier::external_body]
fn locked_exclusive<T>(l: &parking_lot::RwLock<T>) -> (r: bool) {
    l.is_locked_exclusive()
}

/// Relies on parking_lot's `RwLock::data_ptr`: the address of the protected
/// value, taken without locking.
#[verifier::external_body]
fn data_address<T>(l: &parking_lot::RwLock<T>) -> (r: usize) {
    l.data_ptr() as usize
}

/// Relies on `std::sync::atomic::fence` with `Acquire` ordering, which does
/// not panic: later loads are not moved before it.
#[verifier::external_body]
fn acquire_fence() {
    std::sync::atomic::fence(Ordering::Acquire);
}

/// Relies on `AtomicU64::fetch_add`: adds one with release ordering, wrapping
/// at the top; it neither panics nor opens invariants.
#[verifier::external_body]
fn bump_version(version: &AtomicU64)
    opens_invariants none
    no_unwind
{
    version.fetch_add(1, Ordering::Release);
}

/// A hybrid lock around a value of type `T`.
#[verifier::reject_recursive_types(T)]
pub struct HybridLock<T> {
    rw_lock: parking_lot::RwLock<T>,
    version: AtomicU64,
}

/// Shared read access to a hybrid lock, released when dropped. Dropping it
/// leaves the version as it is.
#[verifier::reject_recursive_types(T)]
pub struct HybridRwLockReadGuard<'a, T> {
    token: SharedToken<'a, T>,
    rw_lock: &'a HybridLock<T>,
}

impl<'a, T> HybridRwLockReadGuard<'a, T> {
    /// The lock this guard belongs to.
    pub closed spec fn owner(&self) -> HybridLock<T> {
        *self.rw_lock
    }
}

impl<'a, T> std::ops::Deref for HybridRwLockReadGuard<'a, T> {
    type Target = T;

    fn deref(&self) -> (r: &T) {
        shared_ref(&self.token)
    }
}

/// Exclusive write access to a hybrid lock. Dropping it moves the version by
/// one, and then its exclusive access is released.
#[verifier::reject_recursive_types(T)]
pub struct HybridRwLockWriteGuard<'a, T> {
    token: ExclusiveToken<'a, T>,
    rw_lock: &'a HybridLock<T>,
}

impl<'a, T> HybridRwLockWriteGuard<'a, T> {
    /// The lock this guard belongs to.
    pub closed spec fn owner(&self) -> HybridLock<T> {
        *self.rw_lock
    }
}

impl<'a, T> std::ops::Deref for HybridRwLockWriteGuard<'a, T> {
    type Target = T;

    fn deref(&self) -> (r: &T) {
        exclusive_ref(&self.token)
    }
}

impl<'a, T> std::ops::DerefMut for HybridRwLockWriteGuard<'a, T> {
    fn deref_mut(&mut self) -> (r: &mut T) {
        exclusive_mut(&mut self.token)
    }
}

impl<'a, T> Drop for HybridRwLockWriteGuard<'a, T> {
    fn drop(&mut self)
        opens_invariants none
        no_unwind
    {
        bump_version(&self.rw_lock.version);
    }
}

impl<T> HybridLock<T> {
    /// A lock around `t`, not held, at version zero.
    pub fn new(t: T) -> (r: HybridLock<T>) {
        HybridLock { rw_lock: new_rw_lock(t), version: AtomicU64::new(0) }
    }

    /// Blocks until no writer holds the lock, then holds shared access.
    pub fn read(&self) -> (r: HybridRwLockReadGuard<'_, T>)
        ensures
            r.owner() == *self,
    {
        let token = acquire_shared(&self.rw_lock);
        HybridRwLockReadGuard { token, rw_lock: self }
    }

    /// Blocks until nobody holds the lock, then holds exclusive access.
    pub fn write(&self) -> (r: HybridRwLockWriteGuard<'_, T>)
        ensures
            r.owner() == *self,
    {
        let token = acquire_exclusive(&self.rw_lock);
        HybridRwLockWriteGuard { token, rw_lock: self }
    }

    /// The version now: the number of exclusive sections completed so far
    /// (modulo 2^64). A fence keeps this load after any earlier check of the
    /// exclusive flag.
    pub fn current_version(&self) -> (r: u64) {
        acquire_fence();
        self.version.load(Ordering::Acquire)
    }

    /// Whether a writer holds the lock at this moment.
    pub fn is_locked_exclusive(&self) -> (r: bool) {
        locked_exclusive(&self.rw_lock)
    }

    /// Opens an optimistic attempt: `None` when a writer holds the lock now,
    /// in which case the read must not run; else the version before the read.
    pub fn optimistic_begin(&self) -> (r: Option<u64>) {
        let locked_before = self.is_locked_exclusive();
        if admits(locked_before) {
            Some(self.current_version())
        } else {
            None
        }
    }

    /// Closes an optimistic attempt opened at `pre_version` whose read gave
    /// `result`: checks the exclusive flag, reads the version again, and keeps
    /// `result` only when no writer was seen and the version did not move
    /// (see `validate_optimistic`).
    pub fn optimistic_end<R>(&self, pre_version: u64, result: R) -> (r: Option<R>)
        ensures
            r is None || r == Some(result),
    {
        let locked_after = self.is_locked_exclusive();
        let post_version = self.current_version();
        validate_optimistic(pre_version, result, locked_after, post_version)
    }

    /// The address of the protected value, for reads that validate themselves
    /// against the version. It grants no access of its own.
    pub fn data_addr(&self) -> (r: usize) {
        data_address(&self.rw_lock)
    }
}

} // verus!
