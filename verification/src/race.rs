//! Racing two pollable computations and resolving with the first one to
//! complete.
use crate::enums::Which;
use crate::transport::transport::Poll;
use vstd::prelude::*;

verus! {

/// One poll of a race: polls `poll_a` first and resolves with its value if
/// it is ready; only otherwise polls `poll_b`, and resolves with its value if
/// that one is ready; pending when neither is.
pub fn race_poll<A, B, FA, FB>(poll_a: FA, poll_b: FB) -> (r: Poll<Which<A, B>>)
    where
        FA: FnOnce() -> Poll<A>,
        FB: FnOnce() -> Poll<B>,
    requires
        poll_a.requires(()),
        poll_b.requires(()),
    ensures
        r matches Poll::Ready(Which::A(x)) ==> poll_a.ensures((), Poll::Ready(x)),
        r matches Poll::Ready(Which::B(y)) ==> poll_a.ensures((), Poll::<A>::Pending)
            && poll_b.ensures((), Poll::Ready(y)),
        r is Pending ==> poll_a.ensures((), Poll::<A>::Pending) && poll_b.ensures((), Poll::<B>::Pending),
{
    match poll_a() {
        Poll::Ready(x) => Poll::Ready(Which::A(x)),
        Poll::Pending => match poll_b() {
            Poll::Ready(y) => Poll::Ready(Which::B(y)),
            Poll::Pending => Poll::Pending,
        },
    }
}

} // verus!
