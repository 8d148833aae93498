//! The parts of `std::task` that transports touch: contexts and wakers.
use std::task::{Context, Waker};
use vstd::prelude::*;

verus! {

#[verifier::external_type_specification]
#[verifier::external_body]
pub struct ExContext<'a>(Context<'a>);

#[verifier::external_type_specification]
#[verifier::external_body]
pub struct ExWaker(Waker);

/// A waker that does nothing when woken.
#[derive(Debug, Clone, Copy, PartialEq, Eq)]
pub struct NoOpWaker;

/// `Context::waker`, cloned: the waker of the task being polled.
#[verifier::external_body]
pub(crate) fn context_waker(cx: &Context<'_>) -> Waker {
    cx.waker().clone()
}

/// Evidence that a waker was woken: only [`wake`] makes one, and it names
/// the waker it woke.
pub struct Woken {
    waker: Ghost<Waker>,
}

impl Woken {
    /// The waker that was woken.
    pub closed spec fn waker(&self) -> Waker {
        self.waker@
    }
}

/// `Waker::wake`: wakes the task that the waker belongs to; the evidence
/// returned names that waker.
#[verifier::external_body]
pub(crate) fn wake(w: Waker) -> (r: Woken)
    ensures
        r.waker() == w,
{
    let r = Woken { waker: Ghost(w) };
    w.wake();
    r
}

/// `Waker::noop`: a shared waker that does nothing.
#[verifier::external_body]
pub fn noop_waker() -> &'static Waker {
    Waker::noop()
}

/// A new waker that does nothing (`Waker::noop`, cloned).
#[verifier::external_body]
pub fn new_noop_waker() -> Waker {
    Waker::noop().clone()
}

/// `Context::from_waker` on a waker that does nothing.
#[verifier::external_body]
pub fn noop_context() -> Context<'static> {
    Context::from_waker(Waker::noop())
}

} // verus!
