//! The lock around the state store. The mutex is `parking_lot`'s; what this
//! file says of it is taken on trust.

use parking_lot::lock_api;
use parking_lot::{Mutex, MutexGuard, RawMutex};
use vstd::prelude::*;

verus! {

/// `parking_lot::RawMutex`, the lock inside a `parking_lot::Mutex`. Nothing
/// is said of it.
#[verifier::external_type_specification]
#[verifier::external_body]
pub struct ExRawMutex(RawMutex);

/// `lock_api::Mutex`, of which `parking_lot::Mutex<T>` is the instance with
/// `parking_lot`'s raw mutex. Nothing is said of what it holds: between two
/// lockings any other holder of the mutex may have changed it.
#[verifier::external_type_specification]
#[verifier::external_body]
#[verifier::reject_recursive_types(R)]
#[verifier::reject_recursive_types(T)]
pub struct ExMutex<R, T: ?Sized>(lock_api::Mutex<R, T>);

/// A locked mutex: holds the `parking_lot::MutexGuard` that `lock` returned
/// and releases the mutex when it is dropped. The guard's own declaration is
/// bound by a trait of `lock_api`, so it is kept behind this struct.
#[verifier::external_body]
#[verifier::reject_recursive_types(T)]
pub(crate) struct Held<'a, T> {
    guard: MutexGuard<'a, T>,
}

/// Calls `parking_lot::Mutex::new`: a new, unlocked mutex around `value`.
#[verifier::external_body]
pub(crate) fn guarded<T>(value: T) -> (mutex: Mutex<T>) {
    Mutex::new(value)
}

/// Calls `parking_lot::Mutex::lock`: waits until the mutex is free and takes
/// it. The mutex is not reentrant: a thread that locks it again while it
/// still holds it waits for ever, so no caller may hold a `Held` of the same
/// mutex.
#[verifier::external_body]
pub(crate) fn lock<'a, T>(mutex: &'a Mutex<T>) -> (held: Held<'a, T>) {
    Held { guard: mutex.lock() }
}

/// Calls `MutexGuard::deref`: the value that the locked mutex holds.
#[verifier::external_body]
pub(crate) fn held<'a, 'b, T>(held: &'a Held<'b, T>) -> (value: &'a T) {
    &*held.guard
}

/// Calls `MutexGuard::deref_mut`: the value that the locked mutex holds, to
/// be changed in place.
#[verifier::external_body]
pub(crate) fn held_mut<'a, 'b, T>(held: &'a mut Held<'b, T>) -> (value: &'a mut T) {
    &mut *held.guard
}

} // verus!
