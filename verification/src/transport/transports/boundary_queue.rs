//! The errors of a boundary queue, the queue that carries items across
//! thread and task boundaries.
use std::collections::VecDeque;
use vstd::prelude::*;

verus! {

/// Errors of boundary queue operations.
#[derive(Debug, Clone, Copy, PartialEq, Eq, Structural)]
pub enum BoundaryQueueError {
    /// The lock protecting the queue was poisoned by a thread that panicked while holding it.
    PoisonedMutex,
    /// A wait on the queue's condition variable failed.
    WaitFailed,
}

impl BoundaryQueueError {
    /// The human-readable text of the error.
    pub open spec fn message_text(&self) -> Seq<char> {
        match self {
            BoundaryQueueError::PoisonedMutex => "BoundaryQueue mutex was poisoned by a panicked thread"@,
            BoundaryQueueError::WaitFailed => "condition variable wait failed"@,
        }
    }

    /// Returns the human-readable text of the error.
    pub fn message(&self) -> (s: &'static str)
        ensures
            s@ == self.message_text(),
    {
        match self {
            BoundaryQueueError::PoisonedMutex => "BoundaryQueue mutex was poisoned by a panicked thread",
            BoundaryQueueError::WaitFailed => "condition variable wait failed",
        }
    }
}

/// One step of a cancellable receive on a boundary queue's items: a
/// cancelled receive ends with `Some(None)` and leaves the queue as it is;
/// otherwise the oldest item is taken (`Some(Some(item))`) when there is one,
/// and `None` means: wait for an item and try again.
pub fn recv_step<T>(cancelled: bool, queue: &mut VecDeque<T>) -> (r: Option<Option<T>>)
    ensures
        cancelled ==> r == Some(None::<T>) && final(queue)@ == old(queue)@,
        !cancelled && old(queue)@.len() > 0 ==> r == Some(Some(old(queue)@[0])) && final(queue)@ == old(queue)@.drop_first(),
        !cancelled && old(queue)@.len() == 0 ==> r is None && final(queue)@ == old(queue)@,
{
    if cancelled {
        return Some(None);
    }
    match queue.pop_front() {
        Some(item) => Some(Some(item)),
        None => None,
    }
}

} // verus!
