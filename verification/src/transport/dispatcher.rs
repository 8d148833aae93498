//! The plain values of a dispatcher: the routing keys a message fires, and
//! the errors of dispatching.
use crate::collections::storage::utils::indexed::{clones_of, IndexedStorageRead};
use crate::collections::storage::utils::keyed::KeyedStorageRead;
use crate::collections::storage::utils::{HandleError, StorageError};
use vstd::prelude::*;

verus! {

/// Errors of registering handlers and dispatching messages.
#[derive(Debug, Clone, PartialEq, Eq)]
pub enum DispatcherError {
    /// An error of a handler storage.
    HandleError(HandleError),
    /// The router could not tell which keys a message fires.
    RoutingError(String),
    /// Any other error, carried by its message.
    Custom(String),
}

impl DispatcherError {
    /// The human-readable text of the error.
    pub open spec fn message_text(&self) -> Seq<char> {
        match self {
            DispatcherError::HandleError(e) => e.message_text(),
            DispatcherError::RoutingError(m) => m@,
            DispatcherError::Custom(m) => m@,
        }
    }

    /// Returns the human-readable text of the error.
    pub fn message(&self) -> (s: String)
        ensures
            s@ == self.message_text(),
    {
        match self {
            DispatcherError::HandleError(e) => e.message(),
            DispatcherError::RoutingError(m) => m.clone(),
            DispatcherError::Custom(m) => m.clone(),
        }
    }
}

impl From<HandleError> for DispatcherError {
    fn from(value: HandleError) -> (e: Self)
        ensures
            e == DispatcherError::HandleError(value),
    {
        DispatcherError::HandleError(value)
    }
}

impl vstd::std_specs::convert::FromSpecImpl<HandleError> for DispatcherError {
    open spec fn obeys_from_spec() -> bool {
        true
    }

    open spec fn from_spec(value: HandleError) -> DispatcherError {
        DispatcherError::HandleError(value)
    }
}

impl From<StorageError> for DispatcherError {
    fn from(value: StorageError) -> (e: Self)
        ensures
            e == DispatcherError::HandleError(HandleError::Storage(value)),
    {
        DispatcherError::HandleError(HandleError::Storage(value))
    }
}

impl vstd::std_specs::convert::FromSpecImpl<StorageError> for DispatcherError {
    open spec fn obeys_from_spec() -> bool {
        true
    }

    open spec fn from_spec(value: StorageError) -> DispatcherError {
        DispatcherError::HandleError(HandleError::Storage(value))
    }
}

/// The values stored under each of `keys` that `m` holds, key after key,
/// each in position order.
pub open spec fn handlers_under<K, H, S: IndexedStorageRead<H>>(m: Map<K, S>, keys: Seq<K>) -> Seq<H>
    decreases keys.len(),
{
    if keys.len() == 0 {
        Seq::empty()
    } else {
        let before = handlers_under(m, keys.drop_last());
        let k = keys.last();
        if m.contains_key(k) {
            before + m[k].items()
        } else {
            before
        }
    }
}

/// Clones of two sequences, one after the other, are clones of the two joined.
proof fn lemma_clones_concat<H: Clone>(a: Seq<H>, x: Seq<H>, b: Seq<H>, y: Seq<H>)
    requires
        clones_of(a, x),
        clones_of(b, y),
    ensures
        clones_of(a + b, x + y),
{
    assert forall|i: int| 0 <= i < (x + y).len() implies #[trigger] cloned((a + b)[i], (x + y)[i]) by {
        if i < x.len() {
            assert(cloned(a[i], x[i]));
        } else {
            assert(cloned(b[i - x.len()], y[i - x.len()]));
        }
    }
}

/// The handlers that the routing keys `keys` fire, from `map`, which holds
/// a storage of handlers under each key: for each key in order, clones of
/// the handlers stored under it, in order; a key with no storage fires
/// nothing. A failing storage stops the walk with its error.
pub fn keyed_handlers<K, H: Clone, S: IndexedStorageRead<H>, M: KeyedStorageRead<K, S>>(map: &M, keys: &Vec<K>) -> (r: Result<Vec<H>, DispatcherError>)
    ensures
        M::infallible() && S::infallible() ==> r is Ok,
        M::kv_model() && S::infallible() ==> (r matches Ok(hs) ==> clones_of(handlers_under::<K, H, S>(map.kv(), keys@), hs@)),
        r matches Err(e) ==> e matches DispatcherError::HandleError(HandleError::Storage(_)),
{
    let mut out: Vec<H> = Vec::new();
    let mut i: usize = 0;
    proof {
        assert(keys@.take(0) =~= Seq::<K>::empty());
    }
    while i < keys.len()
        invariant
            i <= keys@.len(),
            M::kv_model() && S::infallible() ==> clones_of(handlers_under::<K, H, S>(map.kv(), keys@.take(i as int)), out@),
        decreases keys@.len() - i,
    {
        proof {
            assert(keys@.take(i + 1).drop_last() =~= keys@.take(i as int));
            assert(keys@.take(i + 1).last() == keys@[i as int]);
        }
        match map.get(&keys[i]) {
            Ok(Some(hs)) => {
                match hs.values() {
                    Ok(vs) => {
                        let ghost before = out@;
                        let mut vs = vs;
                        proof {
                            if M::kv_model() && S::infallible() {
                                lemma_clones_concat(handlers_under::<K, H, S>(map.kv(), keys@.take(i as int)), before, hs.items(), vs@);
                            }
                        }
                        out.append(&mut vs);
                    },
                    Err(e) => {
                        return Err(DispatcherError::from(e));
                    },
                }
            },
            Ok(None) => {},
            Err(e) => {
                return Err(DispatcherError::from(e));
            },
        }
        i += 1;
    }
    proof {
        assert(keys@.take(keys@.len() as int) =~= keys@);
    }
    Ok(out)
}

/// `Vec::from` on an array: a vector of the array's items, moved in order.
#[verifier::external_body]
fn array_into_vec<K>(ks: [K; 2]) -> (v: Vec<K>)
    ensures
        v@ == ks@,
{
    Vec::from(ks)
}

/// The routing keys that a message fires: none, one, two, or many.
#[derive(Debug, Clone, PartialEq, Eq, Hash, Default, PartialOrd, Ord)]
pub enum RouteKeys<K> {
    #[default]
    NoKeys,
    One(K),
    Two([K; 2]),
    Many(Vec<K>),
}

impl<K> RouteKeys<K> {
    /// The keys, in order.
    pub open spec fn keys(&self) -> Seq<K> {
        match self {
            RouteKeys::NoKeys => Seq::empty(),
            RouteKeys::One(k) => seq![*k],
            RouteKeys::Two(ks) => ks@,
            RouteKeys::Many(ks) => ks@,
        }
    }

    /// Returns the keys, in order.
    pub fn into_vec(self) -> (v: Vec<K>)
        ensures
            v@ == self.keys(),
    {
        match self {
            RouteKeys::NoKeys => Vec::new(),
            RouteKeys::One(k) => {
                let mut v = Vec::new();
                v.push(k);
                v
            },
            RouteKeys::Two(ks) => array_into_vec(ks),
            RouteKeys::Many(ks) => ks,
        }
    }
}

} // verus!
