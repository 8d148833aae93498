//! What every item that travels through transports must be.
use vstd::prelude::*;

verus! {

/// Items that travel through transports: debuggable, cloneable, sendable and owned.
pub trait TransportItemRequirements: std::fmt::Debug + Clone + Send + 'static {}

impl<T: std::fmt::Debug + Clone + Send + 'static> TransportItemRequirements for T {}

} // verus!
