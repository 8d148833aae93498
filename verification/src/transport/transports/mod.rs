//! Transports that keep their items in memory: a FIFO queue, a filter, a
//! map, and sinks that consume items.

mod boundary_queue;
mod filter;
mod map;
pub mod queue;
mod sink;

pub use boundary_queue::{recv_step, BoundaryQueueError};
pub use filter::Filter;
pub use map::MapTransport;
pub use queue::Queue;
pub use sink::{state_line, FallibleSink, FallibleStatefulSink, Sink, StatefulSink};

use crate::text::{decimal, decimal_string};
use vstd::prelude::*;
use vstd::string::*;

verus! {

/// A status line: `label` followed by the decimal digits of `n`.
pub(crate) fn count_line(label: &str, n: usize) -> (s: String)
    ensures
        s@ == label@ + decimal(n as nat),
{
    String::from_str(label).concat(decimal_string(n).as_str())
}

} // verus!
