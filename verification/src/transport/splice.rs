//! The handle that stops a splice: a loop, run elsewhere, that moves items
//! from one boundary queue to another.
use crate::cancellation::{CancellationFuture, CancellationToken};
use crate::enums::ControlFlow;
use crate::transport::transports::BoundaryQueueError;
use vstd::prelude::*;

verus! {

/// The decision after one step of a splice loop (a receive, or a send of
/// what was received): a stop signal breaks the loop; a step that went
/// through continues it; a failed step continues or breaks as the error
/// policy answered, `on_error` being that answer (with no answer, it breaks).
pub fn splice_flow(stopped: bool, outcome: Result<(), BoundaryQueueError>, on_error: Option<ControlFlow>) -> (f: ControlFlow)
    ensures
        stopped ==> f == ControlFlow::Break,
        !stopped && outcome is Ok ==> f == ControlFlow::Continue,
        !stopped && outcome is Err ==> f == (match on_error {
            Some(c) => c,
            None => ControlFlow::Break,
        }),
{
    if stopped {
        return ControlFlow::Break;
    }
    match outcome {
        Ok(()) => ControlFlow::Continue,
        Err(_) => match on_error {
            Some(c) => c,
            None => ControlFlow::Break,
        },
    }
}

/// A handle that stops a splice: `stop` signals the splice to leave its
/// loop, and the future from `stopped` completes once that is signalled.
/// Clones share one signal.
pub struct SpliceHandle {
    token: CancellationToken,
}

impl SpliceHandle {
    /// The handle holds a well-formed cancellation token.
    pub closed spec fn wf(&self) -> bool {
        self.token.wf()
    }

    /// A handle whose splice has not been told to stop.
    pub fn new() -> (h: Self)
        ensures
            h.wf(),
    {
        SpliceHandle { token: CancellationToken::new() }
    }

    /// Signals the associated splice to stop running.
    pub fn stop(&self) {
        self.token.cancel();
    }

    /// Returns whether a stop signal has been sent.
    pub fn is_stopped(&self) -> (b: bool) {
        self.token.is_cancelled()
    }

    /// The token that carries the stop signal, shared with this handle.
    pub fn token(&self) -> (t: CancellationToken)
        ensures
            t.wf() == self.wf(),
    {
        self.token.clone()
    }

    /// A future that completes once the splice is told to stop.
    pub fn stopped(&self) -> (f: CancellationFuture)
        ensures
            f.wf(),
    {
        self.token.cancelled()
    }
}

impl Clone for SpliceHandle {
    /// A handle that shares this one's signal.
    fn clone(&self) -> (h: Self)
        ensures
            h.wf() == self.wf(),
    {
        SpliceHandle { token: self.token.clone() }
    }
}

impl Default for SpliceHandle {
    fn default() -> (h: Self)
        ensures
            h.wf(),
    {
        SpliceHandle::new()
    }
}

} // verus!
