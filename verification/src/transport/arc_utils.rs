//! Taking an owned or mutable value out of a shared `Arc`.
use std::sync::Arc;
use vstd::prelude::*;

verus! {

/// `Arc::try_unwrap`: the value itself when `arc` is its only strong holder,
/// otherwise `arc` back unchanged.
#[verifier::external_body]
fn arc_try_unwrap<T>(arc: Arc<T>) -> (r: Result<T, Arc<T>>)
    ensures
        match r {
            Ok(v) => v == *arc,
            Err(a) => *a == *arc,
        },
{
    Arc::try_unwrap(arc)
}

/// `Arc::make_mut`: a mutable reference to the value, which is first cloned
/// into a new allocation when other `Arc`s share it.
#[verifier::external_body]
fn arc_make_mut<T: Clone>(arc: &mut Arc<T>) -> (r: &mut T)
    ensures
        *r == **old(arc) || cloned(**old(arc), *r),
        **final(arc) == *final(r),
{
    Arc::make_mut(arc)
}

/// Takes ownership of the value if `arc` is its last holder, else clones it.
pub fn consume_or_clone<T: Clone>(arc: Arc<T>) -> (v: T)
    ensures
        v == *arc || cloned(*arc, v),
{
    match arc_try_unwrap(arc) {
        Ok(v) => v,
        Err(shared) => (*shared).clone(),
    }
}

/// Gets a `&mut T`, cloning the value once if `arc` is shared.
pub fn make_mut_or_clone<T: Clone>(arc: &mut Arc<T>) -> (r: &mut T)
    ensures
        *r == **old(arc) || cloned(**old(arc), *r),
        **final(arc) == *final(r),
{
    arc_make_mut(arc)
}

} // verus!
