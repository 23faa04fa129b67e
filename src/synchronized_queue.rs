use std::sync::{Condvar, Mutex, MutexGuard};
use vstd::prelude::*;

use crate::queue_state::QueueState;

verus! {

/// `std::sync::Mutex`, carried through opaquely.
#[verifier::external_type_specification]
#[verifier::external_body]
#[verifier::reject_recursive_types(T)]
pub struct ExMutex<T: ?Sized>(Mutex<T>);

/// `std::sync::MutexGuard`, carried through opaquely.
#[verifier::external_type_specification]
#[verifier::external_body]
#[verifier::reject_recursive_types(T)]
pub struct ExMutexGuard<'a, T: ?Sized + 'a>(MutexGuard<'a, T>);

/// `std::sync::Condvar`, carried through opaquely.
#[verifier::external_type_specification]
#[verifier::external_body]
pub struct ExCondvar(Condvar);

/// Relies on `Mutex::new`: builds an unlocked mutex around the value.
pub assume_specification<T>[ Mutex::<T>::new ](t: T) -> Mutex<T>;

/// Relies on `Condvar::new`: builds a condition variable with no waiter.
pub assume_specification[ Condvar::new ]() -> Condvar;

/// Relies on `Condvar::notify_one`: wakes one waiting thread, if any.
pub assume_specification[ Condvar::notify_one ](cv: &Condvar);

/// Relies on `Condvar::notify_all`: wakes every waiting thread.
pub assume_specification[ Condvar::notify_all ](cv: &Condvar);

/// Relies on `Mutex::lock`: blocks until the calling thread holds the lock.
///
/// The lock is private to `SynchronizedQueue`, and its methods hold it only
/// around calls of verified `QueueState` methods (and, in `get`, a copy of a
/// `Copy` value): no code of a caller runs while it is held, no guard leaves
/// this module, and no thread locks it twice. So no thread panics while
/// holding it, the lock is never poisoned, and `unwrap` never fires; were it
/// poisoned all the same, that fault would be fatal, as it should be.
#[verifier::external_body]
fn lock_unwrap<T>(m: &Mutex<QueueState<T>>) -> MutexGuard<'_, QueueState<T>> {
    m.lock().unwrap()
}

/// Relies on `Condvar::wait_while`: releases the lock, sleeps and re-takes
/// the lock until `QueueState::must_wait` is false on the guarded state.
/// The condition variable is only ever paired with the one mutex of its
/// queue; poisoning is ruled out as for `lock_unwrap`.
#[verifier::external_body]
fn wait_while_empty_and_open<'a, T>(
    cv: &Condvar,
    g: MutexGuard<'a, QueueState<T>>,
) -> MutexGuard<'a, QueueState<T>> {
    cv.wait_while(g, |s| s.must_wait()).unwrap()
}

/// Relies on `MutexGuard`'s `DerefMut`: the guard lends out the locked value.
#[verifier::external_body]
fn guarded<'a, 'b, T>(g: &'b mut MutexGuard<'a, QueueState<T>>) -> &'b mut QueueState<T>
{
    &mut *g
}

/// A thread-safe stack of pending items with a closing protocol.
///
/// Items and the closed flag live together behind one lock, so a consumer
/// sees "empty and closed" atomically. Pushes wake one waiting consumer,
/// closing wakes them all. Share it between threads by reference or in an
/// `Arc`.
#[verifier::reject_recursive_types(T)]
pub struct SynchronizedQueue<T> {
    state: Mutex<QueueState<T>>,
    ready: Condvar,
}

impl<T> SynchronizedQueue<T> {
    /// An empty, open queue.
    pub fn new() -> Self {
        SynchronizedQueue { state: Mutex::new(QueueState::new()), ready: Condvar::new() }
    }

    /// Closes the queue and wakes every blocked consumer. Closing twice is
    /// harmless.
    pub fn close(&self)
    {
        {
            let mut g = lock_unwrap(&self.state);
            guarded(&mut g).close();
        }
        self.ready.notify_all();
    }

    /// Adds `item` as the newest item and wakes one blocked consumer. A push
    /// after `close` is accepted.
    pub fn push(&self, item: T) {
        {
            let mut g = lock_unwrap(&self.state);
            guarded(&mut g).push(item);
        }
        self.ready.notify_one();
    }

    /// Takes the newest item if there is one; never blocks and ignores the
    /// closed flag.
    pub fn pop(&self) -> Option<T> {
        let mut g = lock_unwrap(&self.state);
        guarded(&mut g).pop()
    }

    /// Blocks until an item is pending or the queue is closed, then takes
    /// the newest item. Returns `None` only when the queue was both empty
    /// and closed.
    pub fn pop_wait(&self) -> Option<T> {
        let g = lock_unwrap(&self.state);
        let mut g = wait_while_empty_and_open(&self.ready, g);
        guarded(&mut g).pop()
    }

    /// The number of pending items.
    pub fn len(&self) -> usize {
        let mut g = lock_unwrap(&self.state);
        guarded(&mut g).len()
    }

    /// Whether no item is pending.
    pub fn is_empty(&self) -> bool {
        let mut g = lock_unwrap(&self.state);
        guarded(&mut g).is_empty()
    }

    /// Whether the queue has been closed.
    pub fn is_closed(&self) -> bool {
        let mut g = lock_unwrap(&self.state);
        guarded(&mut g).is_closed()
    }
}

impl<T: Copy> SynchronizedQueue<T> {
    /// A copy of the pending item at position `i`, counted from the oldest.
    pub fn get(&self, i: usize) -> Option<T> {
        let mut g = lock_unwrap(&self.state);
        match guarded(&mut g).get(i) {
            Some(x) => Some(*x),
            None => None,
        }
    }
}

} // verus!
