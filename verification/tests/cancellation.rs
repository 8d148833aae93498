use al_structures::cancellation::{CancellationState, CancellationToken};
use al_structures::transport::task::noop_context;
use al_structures::transport::transport::Poll;
use std::sync::atomic::{AtomicBool, Ordering};
use std::sync::Arc;
use std::task::{Wake, Waker};

struct Flag(Arc<AtomicBool>);

impl Wake for Flag {
    fn wake(self: Arc<Self>) {
        self.0.store(true, Ordering::SeqCst);
    }
}

fn flag_notifier(called: &Arc<AtomicBool>) -> Waker {
    Waker::from(Arc::new(Flag(called.clone())))
}

#[test]
fn cancellation_future() {
    let token = CancellationToken::new();
    let mut fut = token.cancelled();
    let mut cx = noop_context();

    assert!(matches!(fut.poll(&mut cx), Poll::Pending));
    assert!(token.cancel());
    assert!(matches!(fut.poll(&mut cx), Poll::Ready(())));
}

#[test]
fn multiple_waiters() {
    let token = CancellationToken::new();
    let mut fut1 = token.cancelled();
    let mut fut2 = token.cancelled();
    let mut cx = noop_context();

    assert!(matches!(fut1.poll(&mut cx), Poll::Pending));
    assert!(matches!(fut2.poll(&mut cx), Poll::Pending));
    assert!(token.cancel());
    assert!(matches!(fut1.poll(&mut cx), Poll::Ready(())));
    assert!(matches!(fut2.poll(&mut cx), Poll::Ready(())));
}

#[test]
fn blocking_cancel() {
    let token = CancellationToken::new();
    let called = Arc::new(AtomicBool::new(false));

    let _waiter = token.cancelled_blocking(flag_notifier(&called));
    assert!(!called.load(Ordering::SeqCst));

    token.cancel();
    assert!(called.load(Ordering::SeqCst));
}

#[test]
fn blocking_already_cancelled() {
    let token = CancellationToken::new();
    assert!(token.cancel());

    let called = Arc::new(AtomicBool::new(false));
    let _waiter = token.cancelled_blocking(flag_notifier(&called));
    assert!(called.load(Ordering::SeqCst));
}

#[test]
fn blocking_drop() {
    let token = CancellationToken::new();
    let called = Arc::new(AtomicBool::new(false));

    let waiter = token.cancelled_blocking(flag_notifier(&called));
    waiter.unregister();

    token.cancel();
    assert!(!called.load(Ordering::SeqCst));
}

#[test]
fn multiple_blocking_waiters() {
    let token = CancellationToken::new();
    let called1 = Arc::new(AtomicBool::new(false));
    let called2 = Arc::new(AtomicBool::new(false));

    let _waiter1 = token.cancelled_blocking(flag_notifier(&called1));
    let _waiter2 = token.cancelled_blocking(flag_notifier(&called2));

    token.cancel();
    assert!(called1.load(Ordering::SeqCst));
    assert!(called2.load(Ordering::SeqCst));
}

#[test]
fn cancel_reports_first_call_only() {
    let token = CancellationToken::new();
    assert!(!token.is_cancelled());
    let other = token.clone();
    assert!(other.cancel());
    assert!(token.is_cancelled());
    assert!(!token.cancel());
}

#[test]
fn future_after_cancellation_is_ready_at_once() {
    let token = CancellationToken::default();
    token.cancel();
    let mut fut = token.cancelled();
    let mut cx = noop_context();
    assert!(matches!(fut.poll(&mut cx), Poll::Ready(())));
}

#[test]
fn state_cancel_step_takes_every_waiter_once() {
    let mut state = CancellationState::fresh();
    let called = Arc::new(AtomicBool::new(false));
    let id0 = state.take_id();
    let id1 = state.take_id();
    assert_eq!((id0, id1), (0, 1));
    assert!(state.register_notifier(id0, flag_notifier(&called)).is_none());
    assert!(!state.poll_step(id1, flag_notifier(&called)));
    let (changed, wakers, notifiers) = state.cancel_step();
    assert!(changed);
    assert_eq!(wakers.len(), 1);
    assert_eq!(wakers[0].0, id1);
    assert_eq!(notifiers.len(), 1);
    assert_eq!(notifiers[0].0, id0);
    let (again, w2, n2) = state.cancel_step();
    assert!(!again);
    assert!(w2.is_empty() && n2.is_empty());
}

#[test]
fn state_after_cancel_hands_notifier_back() {
    let mut state = CancellationState::fresh();
    let called = Arc::new(AtomicBool::new(false));
    let _ = state.cancel_step();
    assert!(state.register_notifier(0, flag_notifier(&called)).is_some());
    assert!(state.poll_step(0, flag_notifier(&called)));
}

#[test]
fn blocking_notifier_woken_at_once_when_cancelled() {
    let token = CancellationToken::new();
    token.cancel();
    let called = Arc::new(AtomicBool::new(false));
    let _w = token.cancelled_blocking(flag_notifier(&called));
    assert!(called.load(Ordering::SeqCst));
}
