//! The transport interface: identifiers, actions, capacity and errors.
use std::task::Context;
use vstd::prelude::*;

verus! {

/// Identifies a transport within a driver.
#[derive(Debug, Copy, Clone, PartialEq, Eq, Hash, Structural)]
pub struct TransportID {
    pub index: usize,
    pub generation: usize,
}

/// Why a `TransportID` does not name a transport.
#[derive(Copy, Clone, Debug, PartialEq, Eq, Hash, Structural)]
pub enum TransportIDError {
    InvalidIndex,
    InvalidGeneration,
}

/// Why a transport refuses an item.
#[derive(Debug, Clone, Copy, PartialEq, Eq, Hash, Structural)]
pub enum Backpressure {
    /// The input buffer is full; retry later.
    BufferFull,
    /// The transport has closed; stop feeding it.
    Closed,
}

/// How much room a transport has for more items.
#[derive(Debug, Clone, Copy, PartialEq, Eq, Hash, Structural)]
pub enum Vacancy {
    /// Unbounded capacity.
    Unbounded,
    /// Room for at least this many more items.
    Vacancy(usize),
    /// No room; the reason is given.
    Backpressure(Backpressure),
}

impl Vacancy {
    /// Whether at least one more item fits.
    pub open spec fn spec_available(self) -> bool {
        match self {
            Vacancy::Unbounded => true,
            Vacancy::Vacancy(n) => n > 0,
            Vacancy::Backpressure(_) => false,
        }
    }

    /// Whether at least one more item fits.
    pub fn is_available(&self) -> (b: bool)
        ensures
            b == self.spec_available(),
    {
        match self {
            Vacancy::Unbounded => true,
            Vacancy::Vacancy(n) => *n > 0,
            Vacancy::Backpressure(_) => false,
        }
    }
}

/// A terminal failure of a transport.
#[derive(Debug, Clone, PartialEq, Eq)]
pub enum TransportError {
    Backpressure(Backpressure),
    Custom(String),
}

/// What a transport has for the driver.
#[derive(Debug, Clone, PartialEq, Eq)]
pub enum Action<T> {
    /// An item to push downstream.
    Data(T),
    /// Nothing now; try again later.
    Pending,
    /// The transport has failed for good; the driver removes it.
    Error(TransportError),
}

/// The outcome of polling a transport.
#[derive(Debug, Clone, PartialEq, Eq)]
pub enum Poll<T> {
    /// The transport has something.
    Ready(T),
    /// The transport has nothing yet; it will wake the task when it has.
    Pending,
}

/// A sans-IO state machine that takes items in and hands items out; it
/// never blocks and never does I/O.
pub trait Transport<T>: Send {
    /// Feed an item from upstream.
    fn handle_incoming(&mut self, data: T) -> Result<(), Backpressure>;

    /// Try to produce an item for downstream.
    fn poll_action(&mut self, cx: &mut Context<'_>) -> Poll<Action<T>>;

    /// How much room is left for incoming items.
    fn has_space(&self) -> Vacancy;

    /// A line describing the transport's state.
    fn status(&self) -> String;
}

} // verus!
