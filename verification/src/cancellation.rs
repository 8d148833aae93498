//! Cancellation primitives for signalling and awaiting cancellation from
//! multiple waiters.
use crate::collections::storage::utils::keyed::{lists_entries, KeyedStorageWrite};
use crate::transport::task::{context_waker, wake, Woken};
use vstd::rwlock::WriteHandle;
use crate::transport::transport::Poll;
use std::collections::HashMap;
use std::sync::Arc;
use std::task::{Context, Waker};
use vstd::prelude::*;
use vstd::rwlock::{RwLock, RwLockPredicate};

verus! {

broadcast use vstd::std_specs::hash::group_hash_axioms;

/// `ws` is evidence that each waker of `es` was woken, in order, once.
pub open spec fn woke_each(es: Seq<(usize, Waker)>, ws: Seq<Woken>) -> bool {
    &&& ws.len() == es.len()
    &&& forall|i: int| 0 <= i < ws.len() ==> #[trigger] ws[i].waker() == es[i].1
}

/// `ws` is evidence that every waker held in `m` was woken, each once.
pub open spec fn woke_all_of(m: Map<usize, Waker>, ws: Seq<Woken>) -> bool {
    exists|es: Seq<(usize, Waker)>| lists_entries(m, es) && #[trigger] woke_each(es, ws)
}

/// Wakes every waker of `wakers`, in order, and returns the evidence.
fn wake_all(wakers: Vec<(usize, Waker)>) -> (ws: Vec<Woken>)
    ensures
        woke_each(wakers@, ws@),
{
    let ghost es = wakers@;
    let mut ws: Vec<Woken> = Vec::new();
    let mut i: usize = 0;
    let n = wakers.len();
    let mut rest = wakers;
    while i < n
        invariant
            n == es.len(),
            i <= n,
            rest@ == es.subrange(i as int, n as int),
            woke_each(es.subrange(0, i as int), ws@),
        decreases n - i,
    {
        let (_, w) = rest.remove(0);
        let t = wake(w);
        ws.push(t);
        proof {
            assert(rest@ =~= es.subrange(i + 1, n as int));
            assert forall|j: int| 0 <= j < ws@.len() implies #[trigger] ws@[j].waker() == es.subrange(0, i + 1)[j].1 by {}
        }
        i = i + 1;
    }
    proof {
        assert(es.subrange(0, n as int) =~= es);
    }
    ws
}

/// The state behind a token: whether it is cancelled, the next waiter id,
/// and the wakers and notifiers of the waiters registered so far.
pub struct CancellationState {
    cancelled: bool,
    next_id: usize,
    wakers: HashMap<usize, Waker>,
    blocking_wakers: HashMap<usize, Waker>,
}

/// Once cancelled, a state holds no registered waker or notifier.
pub struct NoWaitersOnceCancelled;

impl RwLockPredicate<CancellationState> for NoWaitersOnceCancelled {
    closed spec fn inv(self, s: CancellationState) -> bool {
        s.cancelled ==> s.wakers@.dom().is_empty() && s.blocking_wakers@.dom().is_empty()
    }
}

impl CancellationState {
    /// Whether the state is cancelled.
    pub closed spec fn is_cancelled_state(&self) -> bool {
        self.cancelled
    }

    /// The id the next waiter gets.
    pub closed spec fn next_waiter_id(&self) -> usize {
        self.next_id
    }

    /// The wakers of the registered futures, by waiter id.
    pub closed spec fn waker_map(&self) -> Map<usize, Waker> {
        self.wakers@
    }

    /// The notifiers of the registered blocking waiters, by waiter id.
    pub closed spec fn notifier_map(&self) -> Map<usize, Waker> {
        self.blocking_wakers@
    }

    /// Once cancelled, no waker and no notifier is registered.
    pub open spec fn settled(&self) -> bool {
        self.is_cancelled_state() ==> self.waker_map().dom().is_empty() && self.notifier_map().dom().is_empty()
    }

    /// A state that is not cancelled, numbers waiters from 0, and has no waiters.
    pub fn fresh() -> (s: CancellationState)
        ensures
            !s.is_cancelled_state(),
            s.next_waiter_id() == 0,
            s.waker_map() == Map::<usize, Waker>::empty(),
            s.notifier_map() == Map::<usize, Waker>::empty(),
    {
        CancellationState {
            cancelled: false,
            next_id: 0,
            wakers: HashMap::new(),
            blocking_wakers: HashMap::new(),
        }
    }

    /// A fresh state (see [`Self::fresh`]) behind a new lock.
    pub fn new() -> (s: Arc<RwLock<CancellationState, NoWaitersOnceCancelled>>)
        ensures
            s.pred() == NoWaitersOnceCancelled,
    {
        let state = CancellationState::fresh();
        Arc::new(RwLock::new(state, Ghost(NoWaitersOnceCancelled)))
    }

    /// The decision of a cancellation: returns whether this call changed the
    /// state to cancelled, with the wakers and notifiers to wake. On a first
    /// cancellation those are every registered entry, each once, and both
    /// maps are left empty; on a state already cancelled nothing changes and
    /// nothing is to be woken.
    pub fn cancel_step(&mut self) -> (r: (bool, Vec<(usize, Waker)>, Vec<(usize, Waker)>))
        ensures
            r.0 == !old(self).is_cancelled_state(),
            final(self).is_cancelled_state(),
            final(self).next_waiter_id() == old(self).next_waiter_id(),
            r.0 ==> lists_entries(old(self).waker_map(), r.1@) && lists_entries(old(self).notifier_map(), r.2@)
                && final(self).waker_map() == Map::<usize, Waker>::empty()
                && final(self).notifier_map() == Map::<usize, Waker>::empty(),
            !r.0 ==> *final(self) == *old(self) && r.1@.len() == 0 && r.2@.len() == 0,
            final(self).settled() || !r.0,
            old(self).settled() ==> final(self).settled(),
    {
        if self.cancelled {
            return (false, Vec::new(), Vec::new());
        }
        self.cancelled = true;
        let wakers = match KeyedStorageWrite::drain(&mut self.wakers) {
            Ok(ws) => ws,
            Err(_) => Vec::new(),
        };
        let notifiers = match KeyedStorageWrite::drain(&mut self.blocking_wakers) {
            Ok(ns) => ns,
            Err(_) => Vec::new(),
        };
        (true, wakers, notifiers)
    }

    /// Takes the next waiter id (ids wrap around after `usize::MAX`).
    pub fn take_id(&mut self) -> (id: usize)
        ensures
            id == old(self).next_waiter_id(),
            final(self).next_waiter_id() == (if id == usize::MAX { 0 } else { id + 1 }),
            final(self).is_cancelled_state() == old(self).is_cancelled_state(),
            final(self).waker_map() == old(self).waker_map(),
            final(self).notifier_map() == old(self).notifier_map(),
    {
        let id = self.next_id;
        self.next_id = self.next_id.wrapping_add(1);
        id
    }

    /// The decision of registering a blocking notifier under `id`: on a
    /// cancelled state nothing changes and the notifier is handed back, to
    /// be woken at once; otherwise it is registered and `None` comes back.
    pub fn register_notifier(&mut self, id: usize, notifier: Waker) -> (r: Option<Waker>)
        ensures
            old(self).is_cancelled_state() ==> r == Some(notifier) && *final(self) == *old(self),
            !old(self).is_cancelled_state() ==> r is None
                && final(self).notifier_map() == old(self).notifier_map().insert(id, notifier)
                && final(self).waker_map() == old(self).waker_map()
                && final(self).is_cancelled_state() == old(self).is_cancelled_state()
                && final(self).next_waiter_id() == old(self).next_waiter_id(),
            old(self).settled() ==> final(self).settled(),
    {
        if self.cancelled {
            Some(notifier)
        } else {
            let _ = KeyedStorageWrite::insert(&mut self.blocking_wakers, id, notifier);
            None
        }
    }

    /// The decision of one poll of a future with id `id`: on a cancelled
    /// state it is ready and nothing changes; otherwise `waker` is registered
    /// under `id` and the poll is pending.
    pub fn poll_step(&mut self, id: usize, waker: Waker) -> (ready: bool)
        ensures
            ready == old(self).is_cancelled_state(),
            ready ==> *final(self) == *old(self),
            !ready ==> final(self).waker_map() == old(self).waker_map().insert(id, waker)
                && final(self).notifier_map() == old(self).notifier_map()
                && final(self).is_cancelled_state() == old(self).is_cancelled_state()
                && final(self).next_waiter_id() == old(self).next_waiter_id(),
            old(self).settled() ==> final(self).settled(),
    {
        if self.cancelled {
            true
        } else {
            let _ = KeyedStorageWrite::insert(&mut self.wakers, id, waker);
            false
        }
    }
}

/// Cancels the state `state`, read under the write lock `h`: the lock gets
/// the new state back, and then, on a first cancellation, every waker and
/// every notifier that was registered is woken, each once; the evidence
/// comes back with whether this call changed the state.
fn cancel_under(state: CancellationState, h: WriteHandle<'_, CancellationState, NoWaitersOnceCancelled>) -> (r: (bool, Vec<Woken>, Vec<Woken>))
    requires
        h.rwlock().pred() == NoWaitersOnceCancelled,
        h.rwlock().inv(state),
    ensures
        r.0 == !state.is_cancelled_state(),
        r.0 ==> woke_all_of(state.waker_map(), r.1@) && woke_all_of(state.notifier_map(), r.2@),
        !r.0 ==> r.1@.len() == 0 && r.2@.len() == 0,
{
    let mut state = state;
    let ghost before = state;
    let (changed, wakers, notifiers) = state.cancel_step();
    h.release_write(state);
    let ghost es = wakers@;
    let ghost ns = notifiers@;
    let ws = wake_all(wakers);
    let nw = wake_all(notifiers);
    proof {
        if changed {
            assert(woke_each(es, ws@));
            assert(woke_each(ns, nw@));
        }
    }
    (changed, ws, nw)
}

/// A cancellation token that can be shared across threads and checked for
/// cancellation; clones share one state.
///
/// Whether a call sees the token cancelled depends on what every clone of
/// it has done before, possibly from other threads, so the contracts do not
/// say it.
pub struct CancellationToken(Arc<RwLock<CancellationState, NoWaitersOnceCancelled>>);

impl CancellationToken {
    /// The lock of every token admits only states whose notifiers may be called.
    pub closed spec fn wf(&self) -> bool {
        self.0.pred() == NoWaitersOnceCancelled
    }

    /// Every token holds a lock of this kind.
    #[verifier::type_invariant]
    spec fn holds_settled_lock(&self) -> bool {
        self.0.pred() == NoWaitersOnceCancelled
    }

    /// Creates a new token in the non-cancelled state.
    pub fn new() -> (t: Self)
        ensures
            t.wf(),
    {
        CancellationToken(CancellationState::new())
    }

    /// Cancels the token and wakes every registered waiter.
    ///
    /// Returns `true` if this call changed the token to cancelled, and
    /// `false` if it was already cancelled.
    pub fn cancel(&self) -> (changed: bool)
    {
        proof { use_type_invariant(self); }
        let (state, h) = self.0.acquire_write();
        let (changed, _woken, _notified) = cancel_under(state, h);
        changed
    }

    /// Returns whether the token has been cancelled.
    pub fn is_cancelled(&self) -> (b: bool) {
        let h = self.0.acquire_read();
        let b = h.borrow().cancelled;
        h.release_read();
        b
    }

    /// Takes the next waiter id (ids wrap around after `usize::MAX`).
    fn next_id(&self) -> (id: usize)
    {
        proof { use_type_invariant(self); }
        let (mut state, h) = self.0.acquire_write();
        let id = state.take_id();
        h.release_write(state);
        id
    }

    /// Creates a future that completes once the token is cancelled.
    pub fn cancelled(&self) -> (f: CancellationFuture)
        ensures
            !f.is_registered(),
            f.wf(),
            f.waits_on(self),
    {
        proof { use_type_invariant(self); }
        let id = self.next_id();
        CancellationFuture { state: Arc::clone(&self.0), id, registered: false }
    }

    /// Registers a notifier to be woken when the token is cancelled; when
    /// the token is already cancelled it is woken at once, and the waiter
    /// that is returned is not registered.
    pub fn cancelled_blocking(&self, notifier: Waker) -> (w: CancellationWaiter)
        ensures
            w.wf(),
            w.waits_on(self),
            w.is_registered() <==> w.woken_notifier() is None,
            !w.is_registered() ==> w.woken_notifier() == Some(notifier),
    {
        proof { use_type_invariant(self); }
        let id = self.next_id();
        let (mut state, h) = self.0.acquire_write();
        let back = state.register_notifier(id, notifier);
        h.release_write(state);
        match back {
            Some(n) => {
                let t = wake(n);
                CancellationWaiter { state: Arc::clone(&self.0), id, registered: false, woken: Some(t) }
            },
            None => CancellationWaiter { state: Arc::clone(&self.0), id, registered: true, woken: None },
        }
    }
}

impl Clone for CancellationToken {
    /// A token that shares this one's state.
    fn clone(&self) -> (t: Self)
        ensures
            t.wf() == self.wf(),
    {
        CancellationToken(Arc::clone(&self.0))
    }
}

impl Default for CancellationToken {
    fn default() -> (t: Self)
        ensures
            t.wf(),
    {
        CancellationToken::new()
    }
}

/// A blocking notifier registered with a `CancellationToken`.
///
/// When returned from `CancellationToken::cancelled_blocking` it stands for a
/// registered notifier that is called when the token is cancelled;
/// `unregister` withdraws it.
pub struct CancellationWaiter {
    state: Arc<RwLock<CancellationState, NoWaitersOnceCancelled>>,
    id: usize,
    registered: bool,
    woken: Option<Woken>,
}

impl CancellationWaiter {
    /// The waiter holds the lock of a token.
    pub closed spec fn wf(&self) -> bool {
        self.state.pred() == NoWaitersOnceCancelled
    }

    /// Every value holds a lock of this kind.
    #[verifier::type_invariant]
    spec fn holds_settled_lock(&self) -> bool {
        self.state.pred() == NoWaitersOnceCancelled
    }

    /// The waiter waits on the state of token `t`.
    pub closed spec fn waits_on(&self, t: &CancellationToken) -> bool {
        self.state == t.0
    }

    /// Whether the notifier was registered with the token.
    pub closed spec fn is_registered(&self) -> bool {
        self.registered
    }

    /// The notifier woken at once because the token was already cancelled, if any.
    pub closed spec fn woken_notifier(&self) -> Option<Waker> {
        match self.woken {
            Some(t) => Some(t.waker()),
            None => None,
        }
    }

    /// Withdraws the notifier, so that a later cancellation does not call it.
    pub fn unregister(self)
    {
        proof { use_type_invariant(&self); }
        if self.registered {
            let (mut state, h) = self.state.acquire_write();
            let _ = KeyedStorageWrite::remove(&mut state.blocking_wakers, &self.id);
            h.release_write(state);
        }
    }
}

/// A future that completes when the associated `CancellationToken` is cancelled.
///
/// The first poll registers the task's waker with the token, unless the
/// token is already cancelled, in which case the future is ready at once.
/// A cancellation wakes the registered waker, and the next poll is ready.
pub struct CancellationFuture {
    state: Arc<RwLock<CancellationState, NoWaitersOnceCancelled>>,
    id: usize,
    registered: bool,
}

impl CancellationFuture {
    /// The future holds the lock of a token.
    pub closed spec fn wf(&self) -> bool {
        self.state.pred() == NoWaitersOnceCancelled
    }

    /// Every value holds a lock of this kind.
    #[verifier::type_invariant]
    spec fn holds_settled_lock(&self) -> bool {
        self.state.pred() == NoWaitersOnceCancelled
    }

    /// The future waits on the state of token `t`.
    pub closed spec fn waits_on(&self, t: &CancellationToken) -> bool {
        self.state == t.0
    }

    /// Whether the future has registered a waker.
    pub closed spec fn is_registered(&self) -> bool {
        self.registered
    }

    /// Polls the future: `Ready` once the token is cancelled; otherwise the
    /// task's waker is registered and the poll is `Pending`.
    pub fn poll(&mut self, cx: &mut Context<'_>) -> (p: Poll<()>)
        ensures
            final(self).wf(),
            p is Pending ==> final(self).is_registered(),
            p is Ready ==> final(self).is_registered() == old(self).is_registered(),
    {
        proof { use_type_invariant(&*self); }
        let h = self.state.acquire_read();
        let cancelled = h.borrow().cancelled;
        h.release_read();
        if cancelled {
            return Poll::Ready(());
        }
        let (mut state, h) = self.state.acquire_write();
        let ready = state.poll_step(self.id, context_waker(cx));
        h.release_write(state);
        if ready {
            return Poll::Ready(());
        }
        self.registered = true;
        Poll::Pending
    }

    /// Withdraws the registered waker, if any.
    pub fn unregister(self)
    {
        proof { use_type_invariant(&self); }
        if self.registered {
            let (mut state, h) = self.state.acquire_write();
            let _ = KeyedStorageWrite::remove(&mut state.wakers, &self.id);
            h.release_write(state);
        }
    }
}

} // verus!
