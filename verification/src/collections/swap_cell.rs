//! An atomically swapped pointer, the cell of the copy-on-write collections.
use arc_swap::ArcSwap;
use std::sync::Arc;
use vstd::prelude::*;

verus! {

/// An `arc_swap::ArcSwap` cell: an atomically swapped `Arc`. Verus cannot
/// read the type (its default strategy is private to `arc_swap`), so the
/// cell stays opaque and is used only through the functions below.
#[verifier::external_body]
#[verifier::reject_recursive_types(S)]
pub(crate) struct SwapCell<S> {
    cell: ArcSwap<S>,
}

/// `ArcSwap::from`: a cell that holds `value`.
#[verifier::external_body]
pub(crate) fn arc_swap_from<S>(value: Arc<S>) -> SwapCell<S> {
    SwapCell { cell: ArcSwap::from(value) }
}

/// `ArcSwap::load_full`: the pointer that the cell holds at the moment of
/// the call; another thread may store a new one at any time, so nothing
/// is stated of which.
#[verifier::external_body]
pub(crate) fn arc_swap_load_full<S>(c: &SwapCell<S>) -> Arc<S> {
    c.cell.load_full()
}

/// `ArcSwap::store`: replaces the pointer that the cell holds.
#[verifier::external_body]
pub(crate) fn arc_swap_store<S>(c: &SwapCell<S>, value: Arc<S>) {
    c.cell.store(value)
}

} // verus!
