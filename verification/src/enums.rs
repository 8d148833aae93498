//! Simple helper enums used by other utility types.
use vstd::prelude::*;

verus! {

/// A control-flow decision of a helper utility.
#[derive(Debug, Clone, Copy, PartialEq, Eq, Structural)]
pub enum ControlFlow {
    /// Continue normal execution.
    Continue,
    /// Break out.
    Break,
}

/// One of two values.
#[derive(Debug, Clone, Copy, PartialEq, Eq)]
pub enum Which<A, B> {
    /// The first variant.
    A(A),
    /// The second variant.
    B(B),
}

} // verus!
