//! A transport that transforms each item as it arrives.
use super::count_line;
use crate::text::decimal;
use crate::transport::task::{context_waker, wake, Woken};
use crate::transport::transport::{Action, Backpressure, Poll, Transport, Vacancy};
use std::collections::VecDeque;
use std::marker::PhantomData;
use std::task::{Context, Waker};
use vstd::prelude::*;

verus! {

/// A FIFO queue that stores `f(item)` for every incoming item.
/// A transformation that can be called on every item.
#[verifier::reject_recursive_types(T)]
struct Apply<T, F: Fn(T) -> T> {
    f: F,
    _p: PhantomData<T>,
}

impl<T, F: Fn(T) -> T> Apply<T, F> {
    #[verifier::type_invariant]
    spec fn callable(self) -> bool {
        forall|t: T| self.f.requires((t,))
    }

    fn run(&self, t: T) -> (r: T)
        ensures
            self.f.ensures((t,), r),
    {
        proof { use_type_invariant(self); }
        (self.f)(t)
    }
}

#[verifier::reject_recursive_types(T)]
pub struct MapTransport<T, F: Fn(T) -> T> {
    f: Apply<T, F>,
    queue: VecDeque<T>,
    waker: Option<Waker>,
    woken: Option<Woken>,
}

impl<T, F: Fn(T) -> T> MapTransport<T, F> {
    /// The queued items, oldest first.
    pub closed spec fn items(&self) -> Seq<T> {
        self.queue@
    }

    /// The waker a poll left, if any.
    pub closed spec fn held_waker(&self) -> Option<Waker> {
        self.waker
    }

    /// The waker woken last, if one was.
    pub closed spec fn last_woken(&self) -> Option<Waker> {
        match self.woken {
            Some(t) => Some(t.waker()),
            None => None,
        }
    }

    /// The transformation.
    pub closed spec fn func(&self) -> F {
        self.f.f
    }

    /// An empty map with the given transformation.
    pub fn new(f: F) -> (m: Self)
        requires
            forall|t: T| f.requires((t,)),
        ensures
            m.items() == Seq::<T>::empty(),
            m.func() == f,
    {
        MapTransport { f: Apply { f, _p: PhantomData }, queue: VecDeque::new(), waker: None, woken: None }
    }
}

impl<T: Send, F: Fn(T) -> T + Send> Transport<T> for MapTransport<T, F> {
    fn handle_incoming(&mut self, data: T) -> (r: Result<(), Backpressure>)
        ensures
            r is Ok,
            final(self).func() == old(self).func(),
            final(self).items().len() == old(self).items().len() + 1,
            final(self).items().drop_last() == old(self).items(),
            old(self).func().ensures((data,), final(self).items().last()),
            final(self).held_waker() is None,
            old(self).held_waker() matches Some(w) ==> final(self).last_woken() == Some(w),
            old(self).held_waker() is None ==> final(self).last_woken() == old(self).last_woken(),
    {
        let mapped = self.f.run(data);
        self.queue.push_back(mapped);
        match self.waker.take() {
            Some(w) => {
                self.woken = Some(wake(w));
            },
            None => {},
        }
        proof {
            assert(self.queue@.drop_last() =~= old(self).queue@);
        }
        Ok(())
    }

    fn poll_action(&mut self, cx: &mut Context<'_>) -> (r: Poll<Action<T>>)
        ensures
            final(self).func() == old(self).func(),
            old(self).items().len() > 0 ==> r == Poll::Ready(Action::Data(old(self).items()[0]))
                && final(self).items() == old(self).items().drop_first(),
            old(self).items().len() == 0 ==> r == Poll::<Action<T>>::Pending && final(self).items() == old(self).items()
                && final(self).held_waker() is Some,
            old(self).items().len() > 0 ==> final(self).held_waker() == old(self).held_waker(),
            final(self).last_woken() == old(self).last_woken(),
    {
        match self.queue.pop_front() {
            Some(data) => Poll::Ready(Action::Data(data)),
            None => {
                self.waker = Some(context_waker(cx));
                Poll::Pending
            },
        }
    }

    fn has_space(&self) -> (v: Vacancy)
        ensures
            v == Vacancy::Unbounded,
    {
        Vacancy::Unbounded
    }

    fn status(&self) -> (s: String)
        ensures
            s@ == "Map Buffer Length: "@ + decimal(self.items().len()),
    {
        count_line("Map Buffer Length: ", self.queue.len())
    }
}

} // verus!
