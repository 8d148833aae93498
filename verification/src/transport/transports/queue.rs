//! A first-in first-out queue transport.
use super::count_line;
use crate::text::decimal;
use crate::transport::task::{context_waker, wake, Woken};
use crate::transport::transport::{Action, Backpressure, Poll, Transport, Vacancy};
use std::collections::VecDeque;
use std::task::{Context, Waker};
use vstd::prelude::*;

verus! {

/// An in-memory FIFO queue; it wakes a pending poll when an item arrives.
pub struct Queue<T> {
    queue: VecDeque<T>,
    waker: Option<Waker>,
    woken: Option<Woken>,
}

impl<T> Queue<T> {
    /// The queued items, oldest first.
    pub closed spec fn items(&self) -> Seq<T> {
        self.queue@
    }

    /// Whether a poll found the queue empty and left its waker.
    pub closed spec fn has_waker(&self) -> bool {
        self.waker is Some
    }

    /// The waker a poll left, if any.
    pub closed spec fn held_waker(&self) -> Option<Waker> {
        self.waker
    }

    /// The waker the queue woke last, if it woke one.
    pub closed spec fn last_woken(&self) -> Option<Waker> {
        match self.woken {
            Some(t) => Some(t.waker()),
            None => None,
        }
    }

    /// An empty queue.
    pub fn new() -> (q: Self)
        ensures
            q.items() == Seq::<T>::empty(),
            !q.has_waker(),
            q.last_woken() is None,
    {
        Queue { queue: VecDeque::new(), waker: None, woken: None }
    }
}

impl<T> Default for Queue<T> {
    fn default() -> (q: Self)
        ensures
            q.items() == Seq::<T>::empty(),
    {
        Queue::new()
    }
}

impl<T: Send> Transport<T> for Queue<T> {
    fn handle_incoming(&mut self, data: T) -> (r: Result<(), Backpressure>)
        ensures
            r is Ok,
            final(self).items() == old(self).items().push(data),
            !final(self).has_waker(),
            old(self).held_waker() matches Some(w) ==> final(self).last_woken() == Some(w),
            old(self).held_waker() is None ==> final(self).last_woken() == old(self).last_woken(),
    {
        self.queue.push_back(data);
        match self.waker.take() {
            Some(w) => {
                self.woken = Some(wake(w));
            },
            None => {},
        }
        Ok(())
    }

    fn poll_action(&mut self, cx: &mut Context<'_>) -> (r: Poll<Action<T>>)
        ensures
            old(self).items().len() > 0 ==> r == Poll::Ready(Action::Data(old(self).items()[0]))
                && final(self).items() == old(self).items().drop_first()
                && final(self).has_waker() == old(self).has_waker(),
            old(self).items().len() == 0 ==> r == Poll::<Action<T>>::Pending && final(self).items() == old(self).items()
                && final(self).has_waker(),
            final(self).last_woken() == old(self).last_woken(),
    {
        match self.queue.pop_front() {
            Some(data) => Poll::Ready(Action::Data(data)),
            None => {
                self.waker = Some(context_waker(cx));
                Poll::Pending
            },
        }
    }

    fn has_space(&self) -> (v: Vacancy)
        ensures
            v == Vacancy::Unbounded,
    {
        Vacancy::Unbounded
    }

    fn status(&self) -> (s: String)
        ensures
            s@ == "Queue Length: "@ + decimal(self.items().len()),
    {
        count_line("Queue Length: ", self.queue.len())
    }
}

/// An item queued behind others does not overtake them: the oldest item
/// stays first, and what follows it gains the new item at the back.
pub proof fn lemma_fifo<T>(items: Seq<T>, x: T)
    requires
        items.len() > 0,
    ensures
        items.push(x)[0] == items[0],
        items.push(x).drop_first() == items.drop_first().push(x),
{
    assert(items.push(x).drop_first() =~= items.drop_first().push(x));
}

/// What a queue holding `items` holds after being fed each of `xs` in turn,
/// as `handle_incoming` states it one item at a time.
pub open spec fn fed<T>(items: Seq<T>, xs: Seq<T>) -> Seq<T>
    decreases xs.len(),
{
    if xs.len() == 0 {
        items
    } else {
        fed(items, xs.drop_last()).push(xs.last())
    }
}

/// What a queue holding `items` holds after `k` polls that each found it
/// non-empty, as `poll_action` states it one poll at a time.
pub open spec fn after_polls<T>(items: Seq<T>, k: nat) -> Seq<T>
    decreases k,
{
    if k == 0 {
        items
    } else {
        after_polls(items, (k - 1) as nat).drop_first()
    }
}

/// First in, first out over a run of calls: feeding `xs` to a queue
/// holding `items` leaves `items + xs`; then poll number `j` (from 0) hands
/// out `(items + xs)[j]`, leaving what comes after it.
pub proof fn lemma_fifo_run<T>(items: Seq<T>, xs: Seq<T>, j: nat)
    requires
        j < items.len() + xs.len(),
    ensures
        fed(items, xs) == items + xs,
        after_polls(items + xs, j).len() > 0,
        after_polls(items + xs, j)[0] == (items + xs)[j as int],
        after_polls(items + xs, j) == (items + xs).skip(j as int),
{
    lemma_fed(items, xs);
    lemma_polls_skip(items + xs, j);
}

/// Feeding `xs` one item at a time appends them in order.
proof fn lemma_fed<T>(items: Seq<T>, xs: Seq<T>)
    ensures
        fed(items, xs) == items + xs,
    decreases xs.len(),
{
    if xs.len() > 0 {
        lemma_fed(items, xs.drop_last());
        assert(fed(items, xs) =~= items + xs);
    } else {
        assert(items + xs =~= items);
    }
}

/// `k` polls of a queue holding `s` leave all but its first `k` items.
proof fn lemma_polls_skip<T>(s: Seq<T>, k: nat)
    requires
        k <= s.len(),
    ensures
        after_polls(s, k) == s.skip(k as int),
    decreases k,
{
    if k == 0 {
        assert(s.skip(0) =~= s);
    } else {
        lemma_polls_skip(s, (k - 1) as nat);
        assert(s.skip(k - 1).drop_first() =~= s.skip(k as int));
    }
}

} // verus!
