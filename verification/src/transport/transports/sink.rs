//! Transports that consume every item they are fed and produce none.
use crate::transport::transport::{Action, Backpressure, Poll, Transport, Vacancy};
use std::marker::PhantomData;
use std::task::Context;
use vstd::prelude::*;

verus! {

/// `ToString::to_string` through `Display`: the state's own text, as its
/// `Display` impl writes it; nothing is stated of it here.
#[verifier::external_body]
fn display_text<S: std::fmt::Display>(state: &S) -> String {
    format!("{}", state)
}

/// The status line of a stateful sink whose state reads `text`.
pub fn state_line(text: &str) -> (s: String)
    ensures
        s@ == "Stateful Sink { state: "@ + text@ + " }"@,
{
    String::from_str("Stateful Sink { state: ").concat(text).concat(" }")
}

/// A consumer that can be called on every item.
#[verifier::reject_recursive_types(T)]
struct Consume<T, F: Fn(T)> {
    f: F,
    _p: PhantomData<T>,
}

impl<T, F: Fn(T)> Consume<T, F> {
    #[verifier::type_invariant]
    spec fn callable(self) -> bool {
        forall|t: T| self.f.requires((t,))
    }

    fn run(&self, t: T)
        ensures
            self.f.ensures((t,), ()),
    {
        proof { use_type_invariant(self); }
        (self.f)(t)
    }
}

/// A fallible consumer that can be called on every item.
#[verifier::reject_recursive_types(T)]
struct TryConsume<T, F: Fn(T) -> Result<(), Backpressure>> {
    f: F,
    _p: PhantomData<T>,
}

impl<T, F: Fn(T) -> Result<(), Backpressure>> TryConsume<T, F> {
    #[verifier::type_invariant]
    spec fn callable(self) -> bool {
        forall|t: T| self.f.requires((t,))
    }

    fn run(&self, t: T) -> (r: Result<(), Backpressure>)
        ensures
            self.f.ensures((t,), r),
    {
        proof { use_type_invariant(self); }
        (self.f)(t)
    }
}

/// A state update that can be called on every state and item.
#[verifier::reject_recursive_types(T)]
#[verifier::reject_recursive_types(S)]
struct Update<T, S, F: Fn(&mut S, T)> {
    f: F,
    _p: PhantomData<(T, S)>,
}

impl<T, S, F: Fn(&mut S, T)> Update<T, S, F> {
    #[verifier::type_invariant]
    spec fn callable(self) -> bool {
        forall|s: &mut S, t: T| self.f.requires((s, t))
    }

    fn run(&self, s: &mut S, t: T) {
        proof { use_type_invariant(self); }
        (self.f)(s, t)
    }
}

/// A fallible state update that can be called on every state and item.
#[verifier::reject_recursive_types(T)]
#[verifier::reject_recursive_types(S)]
struct TryUpdate<T, S, F: Fn(&mut S, T) -> Result<(), Backpressure>> {
    f: F,
    _p: PhantomData<(T, S)>,
}

impl<T, S, F: Fn(&mut S, T) -> Result<(), Backpressure>> TryUpdate<T, S, F> {
    #[verifier::type_invariant]
    spec fn callable(self) -> bool {
        forall|s: &mut S, t: T| self.f.requires((s, t))
    }

    fn run(&self, s: &mut S, t: T) -> (r: Result<(), Backpressure>) {
        proof { use_type_invariant(self); }
        (self.f)(s, t)
    }
}

/// Hands every item to `f`.
#[verifier::reject_recursive_types(T)]
pub struct Sink<T, F: Fn(T)> {
    f: Consume<T, F>,
}

impl<T, F: Fn(T)> Sink<T, F> {
    /// The consumer.
    pub closed spec fn func(&self) -> F {
        self.f.f
    }

    /// A sink that hands every item to `f`.
    pub fn new(f: F) -> (s: Self)
        requires
            forall|t: T| f.requires((t,)),
        ensures
            s.func() == f,
    {
        Sink { f: Consume { f, _p: PhantomData } }
    }
}

impl<T: Send, F: Fn(T) + Send> Transport<T> for Sink<T, F> {
    fn handle_incoming(&mut self, data: T) -> (r: Result<(), Backpressure>)
        ensures
            r is Ok,
            old(self).func().ensures((data,), ()),
    {
        self.f.run(data);
        Ok(())
    }

    fn poll_action(&mut self, cx: &mut Context<'_>) -> (r: Poll<Action<T>>)
        ensures
            r == Poll::<Action<T>>::Pending,
    {
        Poll::Pending
    }

    fn has_space(&self) -> (v: Vacancy)
        ensures
            v == Vacancy::Unbounded,
    {
        Vacancy::Unbounded
    }

    fn status(&self) -> (s: String) {
        "Sink".to_string()
    }
}

/// Hands every item to `f`, which may refuse it.
#[verifier::reject_recursive_types(T)]
pub struct FallibleSink<T, F: Fn(T) -> Result<(), Backpressure>> {
    f: TryConsume<T, F>,
}

impl<T, F: Fn(T) -> Result<(), Backpressure>> FallibleSink<T, F> {
    /// The consumer.
    pub closed spec fn func(&self) -> F {
        self.f.f
    }

    /// A sink that hands every item to `f`.
    pub fn new(f: F) -> (s: Self)
        requires
            forall|t: T| f.requires((t,)),
        ensures
            s.func() == f,
    {
        FallibleSink { f: TryConsume { f, _p: PhantomData } }
    }
}

impl<T: Send, F: Fn(T) -> Result<(), Backpressure> + Send> Transport<T> for FallibleSink<T, F> {
    fn handle_incoming(&mut self, data: T) -> (r: Result<(), Backpressure>)
        ensures
            old(self).func().ensures((data,), r),
    {
        self.f.run(data)
    }

    fn poll_action(&mut self, cx: &mut Context<'_>) -> (r: Poll<Action<T>>)
        ensures
            r == Poll::<Action<T>>::Pending,
    {
        Poll::Pending
    }

    fn has_space(&self) -> (v: Vacancy)
        ensures
            v == Vacancy::Unbounded,
    {
        Vacancy::Unbounded
    }

    fn status(&self) -> (s: String) {
        "FallibleSink".to_string()
    }
}

/// Hands every item, with mutable access to a state, to `f`.
#[verifier::reject_recursive_types(T)]
#[verifier::reject_recursive_types(S)]
pub struct StatefulSink<T, S, F: Fn(&mut S, T)> {
    state: S,
    f: Update<T, S, F>,
}

impl<T, S, F: Fn(&mut S, T)> StatefulSink<T, S, F> {
    /// The consumer.
    pub closed spec fn func(&self) -> F {
        self.f.f
    }

    /// The state.
    pub closed spec fn spec_state(&self) -> S {
        self.state
    }

    /// A sink with the given state and consumer.
    pub fn new(state: S, f: F) -> (s: Self)
        requires
            forall|st: &mut S, t: T| f.requires((st, t)),
        ensures
            s.func() == f,
            s.spec_state() == state,
    {
        StatefulSink { state, f: Update { f, _p: PhantomData } }
    }

    /// The state.
    pub fn state(&self) -> (s: &S)
        ensures
            *s == self.spec_state(),
    {
        &self.state
    }
}

impl<T: Send, S: std::fmt::Display + Send, F: Fn(&mut S, T) + Send> Transport<T> for StatefulSink<T, S, F> {
    fn handle_incoming(&mut self, data: T) -> (r: Result<(), Backpressure>)
        ensures
            r is Ok,
            final(self).func() == old(self).func(),
    {
        self.f.run(&mut self.state, data);
        Ok(())
    }

    fn poll_action(&mut self, cx: &mut Context<'_>) -> (r: Poll<Action<T>>)
        ensures
            r == Poll::<Action<T>>::Pending,
    {
        Poll::Pending
    }

    fn has_space(&self) -> (v: Vacancy)
        ensures
            v == Vacancy::Unbounded,
    {
        Vacancy::Unbounded
    }

    fn status(&self) -> (s: String)
        ensures
            exists|t: Seq<char>| s@ == "Stateful Sink { state: "@ + t + " }"@,
    {
        let text = display_text(&self.state);
        state_line(text.as_str())
    }
}

/// Hands every item, with mutable access to a state, to `f`, which may refuse it.
#[verifier::reject_recursive_types(T)]
#[verifier::reject_recursive_types(S)]
pub struct FallibleStatefulSink<T, S, F: Fn(&mut S, T) -> Result<(), Backpressure>> {
    state: S,
    f: TryUpdate<T, S, F>,
}

impl<T, S, F: Fn(&mut S, T) -> Result<(), Backpressure>> FallibleStatefulSink<T, S, F> {
    /// The consumer.
    pub closed spec fn func(&self) -> F {
        self.f.f
    }

    /// The state.
    pub closed spec fn spec_state(&self) -> S {
        self.state
    }

    /// A sink with the given state and consumer.
    pub fn new(state: S, f: F) -> (s: Self)
        requires
            forall|st: &mut S, t: T| f.requires((st, t)),
        ensures
            s.func() == f,
            s.spec_state() == state,
    {
        FallibleStatefulSink { state, f: TryUpdate { f, _p: PhantomData } }
    }

    /// The state.
    pub fn state(&self) -> (s: &S)
        ensures
            *s == self.spec_state(),
    {
        &self.state
    }
}

impl<T: Send, S: std::fmt::Display + Send, F: Fn(&mut S, T) -> Result<(), Backpressure> + Send> Transport<T> for FallibleStatefulSink<T, S, F> {
    fn handle_incoming(&mut self, data: T) -> (r: Result<(), Backpressure>)
        ensures
            final(self).func() == old(self).func(),
    {
        self.f.run(&mut self.state, data)
    }

    fn poll_action(&mut self, cx: &mut Context<'_>) -> (r: Poll<Action<T>>)
        ensures
            r == Poll::<Action<T>>::Pending,
    {
        Poll::Pending
    }

    fn has_space(&self) -> (v: Vacancy)
        ensures
            v == Vacancy::Unbounded,
    {
        Vacancy::Unbounded
    }

    fn status(&self) -> (s: String)
        ensures
            exists|t: Seq<char>| s@ == "Stateful Sink { state: "@ + t + " }"@,
    {
        let text = display_text(&self.state);
        state_line(text.as_str())
    }
}

} // verus!
