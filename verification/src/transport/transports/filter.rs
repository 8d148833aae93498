//! A transport that keeps only the items that satisfy a predicate.
use super::count_line;
use crate::text::decimal;
use crate::transport::task::{context_waker, wake, Woken};
use crate::transport::transport::{Action, Backpressure, Poll, Transport, Vacancy};
use std::collections::VecDeque;
use std::marker::PhantomData;
use std::task::{Context, Waker};
use vstd::prelude::*;

verus! {

/// `after` is `before` with `data` appended when `pred` accepted it, and
/// `before` itself when `pred` refused it.
pub open spec fn kept_or_dropped<T, F: Fn(&T) -> bool>(pred: F, data: T, before: Seq<T>, after: Seq<T>) -> bool {
    exists|b: bool| #[trigger] pred.ensures((&data,), b) && after == (if b { before.push(data) } else { before })
}

/// A predicate that can be called on every item.
#[verifier::reject_recursive_types(T)]
struct Keep<T, F: Fn(&T) -> bool> {
    f: F,
    _p: PhantomData<T>,
}

impl<T, F: Fn(&T) -> bool> Keep<T, F> {
    #[verifier::type_invariant]
    spec fn callable(self) -> bool {
        forall|t: &T| self.f.requires((t,))
    }

    fn test(&self, t: &T) -> (b: bool)
        ensures
            self.f.ensures((t,), b),
    {
        proof { use_type_invariant(self); }
        (self.f)(t)
    }
}

/// A FIFO queue that drops every incoming item for which `predicate` is false.
#[verifier::reject_recursive_types(T)]
pub struct Filter<T, F: Fn(&T) -> bool> {
    predicate: Keep<T, F>,
    queue: VecDeque<T>,
    waker: Option<Waker>,
    woken: Option<Woken>,
}

impl<T, F: Fn(&T) -> bool> Filter<T, F> {
    /// The queued items, oldest first.
    pub closed spec fn items(&self) -> Seq<T> {
        self.queue@
    }

    /// The waker a poll left, if any.
    pub closed spec fn held_waker(&self) -> Option<Waker> {
        self.waker
    }

    /// The waker woken last, if one was.
    pub closed spec fn last_woken(&self) -> Option<Waker> {
        match self.woken {
            Some(t) => Some(t.waker()),
            None => None,
        }
    }

    /// The predicate.
    pub closed spec fn pred(&self) -> F {
        self.predicate.f
    }

    /// An empty filter with the given predicate.
    pub fn new(predicate: F) -> (f: Self)
        requires
            forall|t: &T| predicate.requires((t,)),
        ensures
            f.items() == Seq::<T>::empty(),
            f.pred() == predicate,
    {
        Filter { predicate: Keep { f: predicate, _p: PhantomData }, queue: VecDeque::new(), waker: None, woken: None }
    }
}

impl<T: Send, F: Fn(&T) -> bool + Send> Transport<T> for Filter<T, F> {
    fn handle_incoming(&mut self, data: T) -> (r: Result<(), Backpressure>)
        ensures
            r is Ok,
            final(self).pred() == old(self).pred(),
            kept_or_dropped(old(self).pred(), data, old(self).items(), final(self).items()),
            final(self).items().len() > old(self).items().len() ==> (old(self).held_waker() matches Some(w) ==> final(self).last_woken() == Some(w))
                && final(self).held_waker() is None,
            final(self).items() == old(self).items() ==> final(self).held_waker() == old(self).held_waker()
                && final(self).last_woken() == old(self).last_woken(),
            old(self).held_waker() is None ==> final(self).last_woken() == old(self).last_woken(),
    {
        let keep = self.predicate.test(&data);
        let ghost before = self.queue@;
        if keep {
            self.queue.push_back(data);
            match self.waker.take() {
                Some(w) => {
                    self.woken = Some(wake(w));
                },
                None => {},
            }
        }
        assert(old(self).pred().ensures((&data,), keep));
        Ok(())
    }

    fn poll_action(&mut self, cx: &mut Context<'_>) -> (r: Poll<Action<T>>)
        ensures
            final(self).pred() == old(self).pred(),
            old(self).items().len() > 0 ==> r == Poll::Ready(Action::Data(old(self).items()[0]))
                && final(self).items() == old(self).items().drop_first(),
            old(self).items().len() == 0 ==> r == Poll::<Action<T>>::Pending && final(self).items() == old(self).items()
                && final(self).held_waker() is Some,
            old(self).items().len() > 0 ==> final(self).held_waker() == old(self).held_waker(),
            final(self).last_woken() == old(self).last_woken(),
    {
        match self.queue.pop_front() {
            Some(data) => Poll::Ready(Action::Data(data)),
            None => {
                self.waker = Some(context_waker(cx));
                Poll::Pending
            },
        }
    }

    fn has_space(&self) -> (v: Vacancy)
        ensures
            v == Vacancy::Unbounded,
    {
        Vacancy::Unbounded
    }

    fn status(&self) -> (s: String)
        ensures
            s@ == "Filter Buffer Length: "@ + decimal(self.items().len()),
    {
        count_line("Filter Buffer Length: ", self.queue.len())
    }
}

} // verus!
