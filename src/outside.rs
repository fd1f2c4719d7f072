//! The outside items this library builds on: futures' one-shot channel and
//! std's mutex. Each one is described by the contract that Verus believes.
use vstd::prelude::*;
use futures::sync::oneshot::{Receiver, Sender};
use futures::Async;
use std::sync::{Mutex, MutexGuard};

verus! {

/// futures' one-shot sending half, opaque.
#[verifier::external_type_specification]
#[verifier::external_body]
#[verifier::reject_recursive_types(T)]
pub struct ExSender<T>(Sender<T>);

/// futures' one-shot receiving half, opaque.
#[verifier::external_type_specification]
#[verifier::external_body]
#[verifier::reject_recursive_types(T)]
pub struct ExReceiver<T>(Receiver<T>);

/// futures' `Ready` / `NotReady`, which contracts read by its variants.
#[verifier::external_type_specification]
#[verifier::reject_recursive_types(T)]
pub struct ExAsync<T>(Async<T>);

/// std's mutex, opaque: what it holds is known only through that type's
/// own invariant.
#[verifier::external_type_specification]
#[verifier::external_body]
#[verifier::reject_recursive_types(T)]
pub struct ExMutex<T: ?Sized>(Mutex<T>);

/// std's guard of a held mutex, opaque; dropping it lets the lock go.
#[verifier::external_type_specification]
#[verifier::external_body]
#[verifier::reject_recursive_types(T)]
pub struct ExMutexGuard<'a, T: ?Sized + 'a>(MutexGuard<'a, T>);

/// std's `Mutex::new`: a mutex that holds `t`, unlocked.
pub assume_specification<T>[ Mutex::<T>::new ](t: T) -> Mutex<T>;

/// std's `MutexGuard` as `DerefMut`: the value that the held lock protects.
pub assume_specification<'a, 'b, T: ?Sized>[ <MutexGuard<'a, T> as core::ops::DerefMut>::deref_mut ](
    g: &'b mut MutexGuard<'a, T>,
) -> &'b mut T;

/// Relies on `oneshot::Sender::send`: hands `v` to the paired receiver, or
/// gives it back when the receiver is gone, which is no fault here. The call
/// only tries locks, never waits on one, and does not panic: its one assertion
/// holds because a sender sends at most once. Dropping the sender afterwards
/// flags the channel complete and wakes the receiver's task.
#[verifier::external_body]
pub(crate) fn send_value(tx: Sender<usize>, v: usize)
    opens_invariants none
    no_unwind
{
    let _ = tx.send(v);
}

/// Relies on `Mutex::lock`: blocks until this thread holds the lock. A lock
/// left poisoned by a panic in another holder still hands out its value.
#[verifier::external_body]
pub(crate) fn lock<T>(m: &Mutex<T>) -> MutexGuard<'_, T> {
    match m.lock() {
        Ok(g) => g,
        Err(poisoned) => poisoned.into_inner(),
    }
}

} // verus!
