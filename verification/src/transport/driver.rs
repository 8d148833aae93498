//! The driver: owns transports and routes items along their connections.
use super::transport::{Action, Backpressure, Poll, Transport, TransportError, TransportID, TransportIDError, Vacancy};
use std::marker::PhantomData;
use std::collections::VecDeque;
use std::task::Context;
use vstd::prelude::*;

verus! {

/// Why a driver operation failed.
#[derive(Clone, Debug, PartialEq, Eq)]
pub enum DriverError {
    InvalidSender(TransportIDError),
    InvalidReceiver(TransportIDError),
    Transport(TransportError),
    SelfConnection,
}

/// Owns transports and routes the items they produce to the transports
/// they are connected to: one target is fed by move, several (a fan-out)
/// by clones.
#[verifier::reject_recursive_types(T)]
#[verifier::reject_recursive_types(X)]
pub struct Driver<T, X = Box<dyn Transport<T>>> {
    transports: Vec<X>,
    edges: Vec<Option<usize>>,
    fan_outs: Vec<Option<Vec<usize>>>,
    dead: Vec<bool>,
    _items: PhantomData<T>,
    /// Every item handed to a transport, in order: the transport's index,
    /// the item, and what the transport answered.
    log: Ghost<Seq<(usize, T, Result<(), Backpressure>)>>,
    /// What routing rounds did, in order: every poll of a transport (its
    /// index, whether it reported an error, whether it produced an item);
    /// every transport a round took from its queue (its index, whether it
    /// was dead then, whether its targets reported space then); and every
    /// item sent on (see [`Driver::sends`]).
    polls: Ghost<(Seq<(usize, bool, bool)>, Seq<(usize, bool, bool)>, Seq<(int, T, int, int, Seq<bool>)>)>,
}

impl<T> Transport<T> for Box<dyn Transport<T>> {
    fn handle_incoming(&mut self, data: T) -> Result<(), Backpressure> {
        (**self).handle_incoming(data)
    }

    fn poll_action(&mut self, cx: &mut Context<'_>) -> Poll<Action<T>> {
        (**self).poll_action(cx)
    }

    fn has_space(&self) -> Vacancy {
        (**self).has_space()
    }

    fn status(&self) -> String {
        (**self).status()
    }
}

/// Whether the fan-out list `v` names distinct transports below `n`, none of them `from`.
fn targets_ok(v: &Vec<usize>, n: usize, from: usize) -> (b: bool)
    ensures
        b == (v@.no_duplicates() && forall|j: int| 0 <= j < v@.len() ==> #[trigger] v@[j] < n && v@[j] != from),
{
    let mut j: usize = 0;
    while j < v.len()
        invariant
            j <= v@.len(),
            forall|a: int| 0 <= a < j ==> #[trigger] v@[a] < n && v@[a] != from,
            forall|a: int, c: int| 0 <= a < c < j ==> v@[a] != v@[c],
        decreases v@.len() - j,
    {
        let t = v[j];
        if t >= n || t == from {
            return false;
        }
        let mut k: usize = 0;
        while k < j
            invariant
                k <= j,
                j < v@.len(),
                t == v@[j as int],
                forall|a: int| 0 <= a < k ==> v@[a] != t,
            decreases j - k,
        {
            if v[k] == t {
                assert(v@[k as int] == v@[j as int]);
                return false;
            }
            k += 1;
        }
        j += 1;
    }
    true
}

impl<T> Driver<T> {
    /// An empty driver of boxed transports.
    pub fn new() -> (d: Self)
        ensures
            d.wf(),
            d.count() == 0,
    {
        Driver {
            transports: Vec::new(),
            edges: Vec::new(),
            fan_outs: Vec::new(),
            dead: Vec::new(),
            _items: PhantomData,
            log: Ghost(Seq::empty()),
            polls: Ghost((Seq::empty(), Seq::empty(), Seq::empty())),
        }
    }
}

impl<T> Default for Driver<T> {
    fn default() -> (d: Self)
        ensures
            d.wf(),
            d.count() == 0,
    {
        Driver::new()
    }
}

impl<T, X: Transport<T>> Driver<T, X> {
    /// The number of transports added.
    pub closed spec fn count(&self) -> nat {
        self.transports@.len()
    }

    /// Whether items produced by transport `from` go to transport `to`.
    pub closed spec fn links(&self, from: int, to: int) -> bool {
        ||| self.edges@[from] == Some(to as usize)
        ||| (self.fan_outs@[from] matches Some(v) && v@.contains(to as usize))
    }

    /// Whether transport `i` has been removed from routing after failing or closing.
    pub closed spec fn is_dead(&self, i: int) -> bool {
        self.dead@[i]
    }

    /// The dead flags of all transports, by index.
    pub closed spec fn dead_flags(&self) -> Seq<bool> {
        self.dead@
    }

    /// Every item handed to a transport so far, in order: the transport's
    /// index, the item, and the transport's answer.
    pub closed spec fn deliveries(&self) -> Seq<(usize, T, Result<(), Backpressure>)> {
        self.log@
    }

    /// Every poll of a transport so far, in order: its index, whether it
    /// reported an error, and whether it produced an item.
    pub closed spec fn polled(&self) -> Seq<(usize, bool, bool)> {
        self.polls@.0
    }

    /// Every transport a routing round took from its queue, in order: its
    /// index, whether it was dead then, and whether its targets reported
    /// space then (not asked of a dead transport: `false`).
    pub closed spec fn visits(&self) -> Seq<(usize, bool, bool)> {
        self.polls@.1
    }

    /// Every item a poll produced and the driver sent on, in order: the
    /// position of that poll in [`Self::polled`], the item, the span of
    /// [`Self::deliveries`] that sending it made, and the dead flags when it
    /// was sent.
    pub closed spec fn sends(&self) -> Seq<(int, T, int, int, Seq<bool>)> {
        self.polls@.2
    }

    /// Whether transport `i` sends its items anywhere.
    pub closed spec fn routes_onward(&self, i: int) -> bool {
        self.edges@[i] is Some || self.fan_outs@[i] is Some
    }

    /// The targets of transport `from`, in the order they are fed.
    pub closed spec fn targets_of(&self, from: int) -> Seq<usize> {
        match self.edges@[from] {
            Some(t) => seq![t],
            None => match self.fan_outs@[from] {
                Some(v) => v@,
                None => Seq::empty(),
            },
        }
    }

    /// The transports queued for polling after the deliveries `es`: each
    /// target that accepted its item and sends items onward, in order.
    pub open spec fn queued(&self, es: Seq<(usize, T, Result<(), Backpressure>)>) -> Seq<usize>
        decreases es.len(),
    {
        if es.len() == 0 {
            Seq::empty()
        } else {
            let e = es.last();
            self.queued(es.drop_last()) + (if e.2 is Ok && self.routes_onward(e.0 as int) { seq![e.0] } else { Seq::empty() })
        }
    }

    /// Two drivers with the same connections queue the same transports.
    proof fn lemma_queued_frame(&self, other: &Self, es: Seq<(usize, T, Result<(), Backpressure>)>)
        requires
            self.edges@ == other.edges@,
            self.fan_outs@ == other.fan_outs@,
        ensures
            self.queued(es) == other.queued(es),
        decreases es.len(),
    {
        if es.len() > 0 {
            self.lemma_queued_frame(other, es.drop_last());
        }
    }

    /// One more delivery queues what that delivery queues.
    pub proof fn lemma_queued_push(&self, es: Seq<(usize, T, Result<(), Backpressure>)>, e: (usize, T, Result<(), Backpressure>))
        ensures
            self.queued(es.push(e)) == self.queued(es) + (if e.2 is Ok && self.routes_onward(e.0 as int) { seq![e.0] } else { Seq::<usize>::empty() }),
            self.queued(Seq::empty()) == Seq::<usize>::empty(),
    {
        assert(es.push(e).drop_last() =~= es);
        assert(es.push(e).last() == e);
    }

    /// The driver's bookkeeping is consistent: one row per transport, every
    /// link points at a transport other than its source, a source has either
    /// one target or a fan-out list, and a fan-out list holds no target twice.
    pub closed spec fn wf(&self) -> bool {
        let n = self.transports@.len();
        &&& n <= usize::MAX
        &&& self.edges@.len() == n
        &&& self.fan_outs@.len() == n
        &&& self.dead@.len() == n
        &&& forall|i: int| #![trigger self.edges@[i]] 0 <= i < n ==> match self.edges@[i] {
            Some(e) => e < n && e != i && self.fan_outs@[i] is None,
            None => true,
        }
        &&& forall|i: int| #![trigger self.fan_outs@[i]] 0 <= i < n ==> match self.fan_outs@[i] {
            Some(v) => v@.no_duplicates() && forall|j: int| 0 <= j < v@.len() ==> #[trigger] v@[j] < n && v@[j] != i,
            None => true,
        }
    }

    /// Whether transport `k`'s links are well formed (one row of `wf`).
    closed spec fn row_ok(&self, k: int) -> bool {
        let n = self.transports@.len();
        &&& match self.edges@[k] {
            Some(e) => e < n && e != k && self.fan_outs@[k] is None,
            None => true,
        }
        &&& match self.fan_outs@[k] {
            Some(v) => v@.no_duplicates() && forall|j: int| 0 <= j < v@.len() ==> #[trigger] v@[j] < n && v@[j] != k,
            None => true,
        }
    }

    /// Whether the driver's bookkeeping is consistent, checked by walking it.
    pub fn is_consistent(&self) -> (b: bool)
        ensures
            b == self.wf(),
    {
        let n = self.transports.len();
        if self.edges.len() != n || self.fan_outs.len() != n || self.dead.len() != n {
            return false;
        }
        let mut i: usize = 0;
        while i < n
            invariant
                n == self.transports@.len(),
                self.edges@.len() == n,
                self.fan_outs@.len() == n,
                self.dead@.len() == n,
                i <= n,
                forall|k: int| 0 <= k < i ==> #[trigger] self.row_ok(k),
            decreases n - i,
        {
            match self.edges[i] {
                Some(e) => {
                    if e >= n || e == i || self.fan_outs[i].is_some() {
                        assert(!self.row_ok(i as int));
                        return false;
                    }
                },
                None => {},
            }
            match &self.fan_outs[i] {
                Some(v) => {
                    if !targets_ok(v, n, i) {
                        assert(!self.row_ok(i as int));
                        return false;
                    }
                },
                None => {},
            }
            assert(self.row_ok(i as int));
            i += 1;
        }
        assert forall|k: int| #![trigger self.edges@[k]] 0 <= k < n implies match self.edges@[k] {
            Some(e) => e < n && e != k && self.fan_outs@[k] is None,
            None => true,
        } by {
            assert(self.row_ok(k));
        }
        assert forall|k: int| #![trigger self.fan_outs@[k]] 0 <= k < n implies match self.fan_outs@[k] {
            Some(v) => v@.no_duplicates() && forall|j: int| 0 <= j < v@.len() ==> #[trigger] v@[j] < n && v@[j] != k,
            None => true,
        } by {
            assert(self.row_ok(k));
        }
        true
    }

    /// The index that `id` names, if it names a transport.
    pub open spec fn resolves(&self, id: TransportID) -> bool {
        id.index < self.count()
    }

    /// The index that `id` names, or why it names none.
    fn resolve(&self, id: TransportID) -> (r: Result<usize, TransportIDError>)
        ensures
            r == (if self.resolves(id) { Ok(id.index) } else { Err::<usize, TransportIDError>(TransportIDError::InvalidIndex) }),
    {
        if id.index < self.transports.len() {
            Ok(id.index)
        } else {
            Err(TransportIDError::InvalidIndex)
        }
    }

    /// Adds a transport, unconnected, and returns its identifier.
    pub fn add_transport<I: Into<X>>(&mut self, transport: I) -> (id: TransportID)
        requires
            old(self).wf(),
            old(self).count() < usize::MAX,
        ensures
            final(self).wf(),
            final(self).count() == old(self).count() + 1,
            id == (TransportID { index: old(self).count() as usize, generation: 0 }),
            forall|a: int, b: int| 0 <= a < final(self).count() ==> (#[trigger] final(self).links(a, b) <==> a < old(self).count() && old(self).links(a, b)),
            forall|i: int| 0 <= i < old(self).count() ==> #[trigger] final(self).is_dead(i) == old(self).is_dead(i),
            !final(self).is_dead(old(self).count() as int),
            forall|a: int| 0 <= a < final(self).count() ==> !#[trigger] final(self).links(a, old(self).count() as int),
    {
        let index = self.transports.len();
        self.transports.push(transport.into());
        self.edges.push(None);
        self.fan_outs.push(None);
        self.dead.push(false);
        proof {
            assert forall|a: int, b: int| 0 <= a < self.count() implies (#[trigger] self.links(a, b) <==> a < old(self).count() && old(self).links(a, b)) by {
                if a < index {
                    assert(self.edges@[a] == old(self).edges@[a]);
                    assert(self.fan_outs@[a] == old(self).fan_outs@[a]);
                }
            }
        }
        TransportID { index, generation: 0 }
    }

    /// Routes the items of `from` to `to` as well; connecting twice changes nothing.
    pub fn connect(&mut self, from: TransportID, to: TransportID) -> (r: Result<(), DriverError>)
        requires
            old(self).wf(),
        ensures
            final(self).wf(),
            final(self).count() == old(self).count(),
            forall|i: int| 0 <= i < old(self).count() ==> #[trigger] final(self).is_dead(i) == old(self).is_dead(i),
            !old(self).resolves(from) ==> r == Err::<(), DriverError>(DriverError::InvalidSender(TransportIDError::InvalidIndex)),
            old(self).resolves(from) && !old(self).resolves(to) ==> r == Err::<(), DriverError>(DriverError::InvalidReceiver(TransportIDError::InvalidIndex)),
            old(self).resolves(from) && old(self).resolves(to) && from.index == to.index ==> r == Err::<(), DriverError>(DriverError::SelfConnection),
            r is Err ==> forall|a: int, b: int| #[trigger] final(self).links(a, b) == old(self).links(a, b),
            old(self).resolves(from) && old(self).resolves(to) && from.index != to.index ==> r is Ok,
            r is Ok ==> forall|a: int, b: int| 0 <= a < old(self).count() && 0 <= b < old(self).count() ==> (#[trigger] final(self).links(a, b)
                <==> old(self).links(a, b) || (a == from.index && b == to.index)),
    {
        let fi = match self.resolve(from) {
            Ok(i) => i,
            Err(e) => {
                return Err(DriverError::InvalidSender(e));
            },
        };
        let ti = match self.resolve(to) {
            Ok(i) => i,
            Err(e) => {
                return Err(DriverError::InvalidReceiver(e));
            },
        };
        if fi == ti {
            return Err(DriverError::SelfConnection);
        }
        let ghost n = self.transports.len();
        match self.edges[fi] {
            Some(e) => {
                if e != ti {
                    self.edges.set(fi, None);
                    let v: Vec<usize> = vec![e, ti];
                    self.fan_outs.set(fi, Some(v));
                    proof {
                        assert(v@ =~= seq![e, ti]);
                    }
                }
            },
            None => {
                let mut slot: Option<Vec<usize>> = None;
                self.fan_outs.set_and_swap(fi, &mut slot);
                match slot {
                    Some(mut v) => {
                        if !contains_index(&v, ti) {
                            let ghost before = v@;
                            v.push(ti);
                            proof {
                                assert forall|j: int, k: int| 0 <= j < k < v@.len() implies v@[j] != v@[k] by {
                                    if k == before.len() {
                                        assert(before.contains(v@[j]));
                                    }
                                }
                                assert forall|x: usize| v@.contains(x) <==> before.contains(x) || x == ti by {
                                    if v@.contains(x) {
                                        let j = choose|j: int| 0 <= j < v@.len() && v@[j] == x;
                                        if j < before.len() {
                                            assert(before[j] == x);
                                        }
                                    }
                                    if before.contains(x) {
                                        let j = choose|j: int| 0 <= j < before.len() && before[j] == x;
                                        assert(v@[j] == x);
                                    }
                                    if x == ti {
                                        assert(v@[before.len() as int] == x);
                                    }
                                }
                            }
                        }
                        self.fan_outs.set(fi, Some(v));
                    },
                    None => {
                        self.fan_outs.set(fi, None);
                        self.edges.set(fi, Some(ti));
                    },
                }
            },
        }
        proof {
            assert forall|a: int, b: int| 0 <= a < old(self).count() && 0 <= b < old(self).count() implies (#[trigger] self.links(a, b)
                <==> old(self).links(a, b) || (a == fi && b == ti)) by {
                if a != fi {
                    assert(self.edges@[a] == old(self).edges@[a]);
                    assert(self.fan_outs@[a] == old(self).fan_outs@[a]);
                } else {
                    match old(self).edges@[a] {
                        Some(e) => {
                            if e != ti {
                                let v = self.fan_outs@[a]->Some_0@;
                                if b == e as int {
                                    assert(v[0] == e);
                                }
                                if b == ti as int {
                                    assert(v[1] == ti);
                                }
                                if v.contains(b as usize) {
                                    let j = choose|j: int| 0 <= j < v.len() && v[j] == b as usize;
                                    assert(j == 0 || j == 1);
                                }
                            }
                        },
                        None => {},
                    }
                }
            }
        }
        Ok(())
    }

    /// Stops routing the items of `from` to `to`; a link that is not there is no error.
    pub fn disconnect(&mut self, from: TransportID, to: TransportID) -> (r: Result<(), DriverError>)
        requires
            old(self).wf(),
        ensures
            final(self).wf(),
            final(self).count() == old(self).count(),
            forall|i: int| 0 <= i < old(self).count() ==> #[trigger] final(self).is_dead(i) == old(self).is_dead(i),
            !old(self).resolves(from) ==> r == Err::<(), DriverError>(DriverError::InvalidSender(TransportIDError::InvalidIndex)),
            old(self).resolves(from) && !old(self).resolves(to) ==> r == Err::<(), DriverError>(DriverError::InvalidReceiver(TransportIDError::InvalidIndex)),
            old(self).resolves(from) && old(self).resolves(to) ==> r is Ok,
            r is Err ==> forall|a: int, b: int| #[trigger] final(self).links(a, b) == old(self).links(a, b),
            r is Ok ==> forall|a: int, b: int| 0 <= a < old(self).count() && 0 <= b < old(self).count() ==> (#[trigger] final(self).links(a, b)
                <==> old(self).links(a, b) && !(a == from.index && b == to.index)),
    {
        let fi = match self.resolve(from) {
            Ok(i) => i,
            Err(e) => {
                return Err(DriverError::InvalidSender(e));
            },
        };
        let ti = match self.resolve(to) {
            Ok(i) => i,
            Err(e) => {
                return Err(DriverError::InvalidReceiver(e));
            },
        };
        if fi != ti {
            match self.edges[fi] {
                Some(e) => {
                    if e == ti {
                        self.edges.set(fi, None);
                    }
                },
                None => {
                    let mut slot: Option<Vec<usize>> = None;
                    self.fan_outs.set_and_swap(fi, &mut slot);
                    match slot {
                        Some(mut v) => {
                            let ghost before = v@;
                            remove_index(&mut v, ti);
                            proof {
                                lemma_row_bounded(before, v@, self.transports@.len() as int, fi as int);
                            }
                            self.fan_outs.set(fi, Some(v));
                            proof {
                                assert forall|b: int| 0 <= b < old(self).count() implies (self.links(fi as int, b)
                                    <==> old(self).links(fi as int, b) && b != ti) by {
                                    assert(v@.contains(b as usize) <==> before.contains(b as usize) && b as usize != ti);

                                }
                            }
                        },
                        None => {
                            self.fan_outs.set(fi, None);
                        },
                    }
                },
            }
        }
        proof {
            assert forall|a: int, b: int| 0 <= a < old(self).count() && 0 <= b < old(self).count() implies (#[trigger] self.links(a, b)
                <==> old(self).links(a, b) && !(a == fi && b == ti)) by {
                if a != fi || fi == ti {
                    assert(self.edges@[a] == old(self).edges@[a]);
                    assert(self.fan_outs@[a] == old(self).fan_outs@[a]);
                    if a == fi {
                        if old(self).links(a, b) && b == ti {
                            match old(self).fan_outs@[a] {
                                Some(v) => {
                                    if v@.contains(b as usize) {
                                        let j = choose|j: int| 0 <= j < v@.len() && v@[j] == b as usize;
                                        assert(v@[j] != a);
                                    }
                                },
                                None => {},
                            }
                        }
                    }
                } else {
                    match old(self).edges@[a] {
                        Some(e) => {
                            assert(old(self).fan_outs@[a] is None);
                            assert(self.fan_outs@[a] == old(self).fan_outs@[a]);
                            if e == ti {
                                assert(self.edges@[a] is None);
                            } else {
                                assert(self.edges@[a] == old(self).edges@[a]);
                            }
                        },
                        None => {
                            assert(self.edges@[a] is None);
                            match old(self).fan_outs@[a] {
                                Some(ov) => {
                                    let nv = self.fan_outs@[a]->Some_0;
                                    assert(nv@.contains(b as usize) <==> ov@.contains(b as usize) && b as usize != ti);
                                },
                                None => {},
                            }
                        },
                    }
                }
            }
        }
        Ok(())
    }

    /// Hands `data` to transport `ti` and records the delivery with the
    /// transport's answer.
    fn hand(&mut self, ti: usize, data: T) -> (r: Result<(), Backpressure>)
        requires
            old(self).wf(),
            ti < old(self).count(),
        ensures
            final(self).wf(),
            final(self).count() == old(self).count(),
            final(self).edges@ == old(self).edges@,
            final(self).fan_outs@ == old(self).fan_outs@,
            final(self).dead@ == old(self).dead@,
            final(self).polls@ == old(self).polls@,
            final(self).deliveries() == old(self).deliveries().push((ti, data, r)),
    {
        let ghost d = data;
        let r = self.transports[ti].handle_incoming(data);
        proof {
            self.log@ = self.log@.push((ti, d, r));
        }
        r
    }

    /// Feeds `data` straight to the transport `to`: that transport is handed
    /// `data`, and its answer is the result, an error mapped to
    /// `DriverError::Transport`.
    pub fn deliver_to(&mut self, to: TransportID, data: T) -> (r: Result<(), DriverError>)
        requires
            old(self).wf(),
        ensures
            final(self).wf(),
            final(self).count() == old(self).count(),
            forall|a: int, b: int| #[trigger] final(self).links(a, b) == old(self).links(a, b),
            forall|i: int| 0 <= i < old(self).count() ==> #[trigger] final(self).is_dead(i) == old(self).is_dead(i),
            !old(self).resolves(to) <==> r == Err::<(), DriverError>(DriverError::InvalidReceiver(TransportIDError::InvalidIndex)),
            !old(self).resolves(to) ==> final(self).deliveries() == old(self).deliveries(),
            old(self).resolves(to) ==> {
                let o = final(self).deliveries().last().2;
                &&& final(self).deliveries() == old(self).deliveries().push((to.index, data, o))
                &&& r == match o {
                    Ok(()) => Ok::<(), DriverError>(()),
                    Err(e) => Err(DriverError::Transport(TransportError::Backpressure(e))),
                }
            },
    {
        let ti = match self.resolve(to) {
            Ok(i) => i,
            Err(e) => {
                return Err(DriverError::InvalidReceiver(e));
            },
        };
        match self.hand(ti, data) {
            Ok(()) => Ok(()),
            Err(e) => Err(DriverError::Transport(TransportError::Backpressure(e))),
        }
    }

    /// Whether every target of `from` is alive and has room for an item.
    fn targets_ready(&self, from: usize) -> (b: bool)
        requires
            self.wf(),
            from < self.count(),
        ensures
            b ==> forall|t: int| 0 <= t < self.count() && #[trigger] self.links(from as int, t) ==> !self.is_dead(t),
            self.edges@[from as int] is None && self.fan_outs@[from as int] is None ==> b,
    {
        match self.edges[from] {
            Some(to) => {
                return !self.dead[to] && self.transports[to].has_space().is_available();
            },
            None => {},
        }
        match &self.fan_outs[from] {
            Some(v) => {
                let mut i: usize = 0;
                while i < v.len()
                    invariant
                        self.wf(),
                        from < self.count(),
                        self.fan_outs@[from as int] == Some(*v),
                        i <= v@.len(),
                        forall|j: int| 0 <= j < i ==> !self.dead@[#[trigger] v@[j] as int],
                    decreases v@.len() - i,
                {
                    let t = v[i];
                    if self.dead[t] || !self.transports[t].has_space().is_available() {
                        return false;
                    }
                    i = i + 1;
                }
                proof {
                    assert forall|t: int| 0 <= t < self.count() && #[trigger] self.links(from as int, t) implies !self.is_dead(t) by {
                        let j = choose|j: int| 0 <= j < v@.len() && v@[j] == t as usize;
                        assert(!self.dead@[v@[j] as int]);
                    }
                }
                true
            },
            None => true,
        }
    }

    /// Takes transport `index` out of routing: marks it dead and drops every
    /// link from or to it.
    fn kill_transport(&mut self, index: usize)
        requires
            old(self).wf(),
            index < old(self).count(),
        ensures
            final(self).wf(),
            final(self).count() == old(self).count(),
            final(self).is_dead(index as int),
            forall|i: int| 0 <= i < old(self).count() && i != index ==> #[trigger] final(self).is_dead(i) == old(self).is_dead(i),
            forall|a: int, b: int| 0 <= a < old(self).count() && 0 <= b < old(self).count() ==> (#[trigger] final(self).links(a, b)
                <==> old(self).links(a, b) && a != index && b != index),
            final(self).polls@ == old(self).polls@,
            final(self).log@ == old(self).log@,
    {
        let n = self.transports.len();
        self.dead.set(index, true);
        self.edges.set(index, None);
        self.fan_outs.set(index, None);
        let mut i: usize = 0;
        while i < n
            invariant
                self.wf(),
                n == self.count(),
                n == old(self).count(),
                i <= n,
                index < n,
                self.dead@[index as int],
                forall|k: int| 0 <= k < n && k != index ==> #[trigger] self.dead@[k] == old(self).dead@[k],
                forall|a: int, b: int| 0 <= a < n && 0 <= b < n ==> (#[trigger] self.links(a, b)
                    <==> old(self).links(a, b) && a != index && (a < i ==> b != index)),
                self.edges@[index as int] is None,
                self.fan_outs@[index as int] is None,
                self.polls@ == old(self).polls@,
                self.log@ == old(self).log@,
            decreases n - i,
        {
            let ghost pre = *self;
            let ghost pre_edges = self.edges@;
            let ghost pre_fans = self.fan_outs@;
            match self.edges[i] {
                Some(t) => {
                    if t == index {
                        self.edges.set(i, None);
                    }
                },
                None => {},
            }
            let mut slot: Option<Vec<usize>> = None;
            self.fan_outs.set_and_swap(i, &mut slot);
            match slot {
                Some(mut v) => {
                    let ghost before = v@;
                    remove_index(&mut v, index);
                    proof {
                        lemma_row_bounded(before, v@, n as int, i as int);
                    }
                    self.fan_outs.set(i, Some(v));
                    proof {
                        assert forall|b: int| 0 <= b < n implies (self.links(i as int, b)
                            <==> before.contains(b as usize) && b != index) by {
                            assert(v@.contains(b as usize) <==> before.contains(b as usize) && b as usize != index);
                        }
                    }
                },
                None => {
                    self.fan_outs.set(i, None);
                },
            }
            proof {
                if i == index {
                    assert(pre_fans[i as int] is None);
                    assert(self.fan_outs@[i as int] is None);
                } else {
                    assert(self.fan_outs@[index as int] == pre_fans[index as int]);
                }
                assert forall|a: int, b: int| 0 <= a < n && 0 <= b < n implies (#[trigger] self.links(a, b)
                    <==> old(self).links(a, b) && a != index && (a < i + 1 ==> b != index)) by {
                    assert(pre.links(a, b) <==> old(self).links(a, b) && a != index && (a < i ==> b != index));
                    if a != i {
                        assert(self.edges@[a] == pre_edges[a]);
                        assert(self.fan_outs@[a] == pre_fans[a]);
                    } else {
                        if a == index {
                            assert(pre_edges[a] is None);
                            assert(pre_fans[a] is None);
                        }
                        assert(pre.links(a, b) <==> old(self).links(a, b) && a != index);
                        match pre_edges[a] {
                            Some(t) => {
                                if t == index {
                                    assert(self.edges@[a] is None);
                                } else {
                                    assert(self.edges@[a] == pre_edges[a]);
                                }
                            },
                            None => {
                                assert(self.edges@[a] is None);
                            },
                        }
                        match pre_fans[a] {
                            Some(pv) => {
                                assert(self.links(a, b) <==> pv@.contains(b as usize) && b != index);
                            },
                            None => {
                                assert(self.fan_outs@[a] is None);
                            },
                        }
                    }
                }
            }
            i = i + 1;
        }
    }

    /// The status line of every transport, in the order they were added.
    pub fn statuses(&self) -> (r: Vec<String>)
        ensures
            r@.len() == self.count(),
    {
        let mut out: Vec<String> = Vec::new();
        let mut i: usize = 0;
        while i < self.transports.len()
            invariant
                i <= self.transports.len(),
                out@.len() == i,
            decreases self.transports.len() - i,
        {
            out.push(self.transports[i].status());
            i = i + 1;
        }
        out
    }
}

/// The deliveries `es` hand one item to each target of `targets` that is
/// not dead by `dead`, in order, and to nothing else.
pub open spec fn feeds<T>(targets: Seq<usize>, dead: Seq<bool>, es: Seq<(usize, T, Result<(), Backpressure>)>) -> bool
    decreases targets.len(),
{
    if targets.len() == 0 {
        es.len() == 0
    } else if dead[targets.last() as int] {
        feeds(targets.drop_last(), dead, es)
    } else {
        es.len() > 0 && es.last().0 == targets.last() && feeds(targets.drop_last(), dead, es.drop_last())
    }
}

/// The item a poll produced, if it produced one.
pub open spec fn item_of<T>(outcome: Poll<Action<T>>) -> Option<T> {
    match outcome {
        Poll::Ready(Action::Data(d)) => Some(d),
        _ => None,
    }
}

/// Transport `i` answered `Closed` to one of the deliveries `es`.
pub open spec fn closed_in<T>(es: Seq<(usize, T, Result<(), Backpressure>)>, i: int) -> bool {
    exists|j: int| 0 <= j < es.len() && es[j].0 == i && es[j].2 == Err::<(), Backpressure>(Backpressure::Closed)
}

impl<T: Clone, X: Transport<T>> Driver<T, X> {
    /// Whether transport `i` routes its items anywhere.
    fn has_targets(&self, i: usize) -> (b: bool)
        requires
            self.wf(),
            i < self.count(),
        ensures
            b == (self.edges@[i as int] is Some || self.fan_outs@[i as int] is Some),
    {
        self.edges[i].is_some() || self.fan_outs[i].is_some()
    }

    /// Hands `to` one item; a target that answers `Closed` is marked dead,
    /// and a target that accepts it and sends items onward is queued in `work`.
    fn feed(&mut self, to: usize, item: T, work: &mut VecDeque<usize>)
        requires
            old(self).wf(),
            to < old(self).count(),
            forall|k: int| 0 <= k < old(work)@.len() ==> #[trigger] old(work)@[k] < old(self).count(),
        ensures
            final(self).wf(),
            final(self).count() == old(self).count(),
            final(self).edges@ == old(self).edges@,
            final(self).fan_outs@ == old(self).fan_outs@,
            final(self).polls@ == old(self).polls@,
            ({
                let o = final(self).deliveries().last().2;
                &&& final(self).deliveries() == old(self).deliveries().push((to, item, o))
                &&& final(self).dead@ == old(self).dead@.update(to as int, old(self).dead@[to as int] || o == Err::<(), Backpressure>(Backpressure::Closed))
                &&& final(work)@ == old(work)@ + (if o is Ok && old(self).routes_onward(to as int) { seq![to] } else { Seq::<usize>::empty() })
            }),
            forall|k: int| 0 <= k < final(work)@.len() ==> #[trigger] final(work)@[k] < final(self).count(),
    {
        let ghost e0 = (to, item);
        let o = self.hand(to, item);
        proof {
            let es = seq![(to, item, o)];
            assert(es.drop_last() =~= Seq::<(usize, T, Result<(), Backpressure>)>::empty());
            assert(es.last() == (to, item, o));
        }
        match o {
            Ok(()) => {
                if self.has_targets(to) {
                    work.push_back(to);
                }
                proof {
                    assert(self.dead@ =~= old(self).dead@.update(to as int, old(self).dead@[to as int] || o == Err::<(), Backpressure>(Backpressure::Closed)));
                }
            },
            Err(Backpressure::Closed) => {
                self.dead.set(to, true);
            },
            Err(Backpressure::BufferFull) => {
                proof {
                    assert(self.dead@ =~= old(self).dead@.update(to as int, old(self).dead@[to as int] || o == Err::<(), Backpressure>(Backpressure::Closed)));
                }
            },
        }
        proof {
            assert(work@ =~= old(work)@ + (if o is Ok && old(self).routes_onward(to as int) { seq![to] } else { Seq::<usize>::empty() }));
        }
    }

    /// Sends an item that `from` produced to its targets, in order: each live
    /// target is handed it once, the last live one by move and the others a
    /// clone; a target that answers `Closed` is marked dead, and the targets
    /// that accept it and send items onward are queued in `work`.
    fn send_from(&mut self, from: usize, data: T, work: &mut VecDeque<usize>)
        requires
            old(self).wf(),
            from < old(self).count(),
            forall|k: int| 0 <= k < old(work)@.len() ==> #[trigger] old(work)@[k] < old(self).count(),
        ensures
            final(self).wf(),
            final(self).count() == old(self).count(),
            final(self).edges@ == old(self).edges@,
            final(self).fan_outs@ == old(self).fan_outs@,
            final(self).polls@ == old(self).polls@,
            forall|k: int| 0 <= k < final(work)@.len() ==> #[trigger] final(work)@[k] < final(self).count(),
            old(self).deliveries().len() <= final(self).deliveries().len(),
            final(self).deliveries().subrange(0, old(self).deliveries().len() as int) == old(self).deliveries(),
            ({
                let es = final(self).deliveries().subrange(old(self).deliveries().len() as int, final(self).deliveries().len() as int);
                &&& feeds(old(self).targets_of(from as int), old(self).dead_flags(), es)
                &&& forall|j: int| 0 <= j < es.len() - 1 ==> cloned(data, #[trigger] es[j].1)
                &&& es.len() > 0 ==> es.last().1 == data
                &&& forall|i: int| 0 <= i < old(self).count() ==> #[trigger] final(self).is_dead(i) == (old(self).is_dead(i) || closed_in(es, i))
                &&& final(work)@ == old(work)@ + old(self).queued(es)
            }),
    {
        let n = self.transports.len();
        let ghost d0 = self.dead@;
        let mut targets: Vec<usize> = Vec::new();
        match self.edges[from] {
            Some(to) => {
                targets.push(to);
            },
            None => {
                match &self.fan_outs[from] {
                    Some(v) => {
                        let mut k: usize = 0;
                        while k < v.len()
                            invariant
                                k <= v@.len(),
                                targets@ == v@.subrange(0, k as int),
                            decreases v@.len() - k,
                        {
                            targets.push(v[k]);
                            k = k + 1;
                        }
                        proof { assert(targets@ =~= v@); }
                    },
                    None => {},
                }
            },
        }
        proof {
            assert(targets@ =~= old(self).targets_of(from as int));
            assert(targets@.no_duplicates());
            assert forall|m: int| 0 <= m < targets@.len() implies #[trigger] targets@[m] < n by {}
        }
        let mut last_live: Option<usize> = None;
        let mut k: usize = 0;
        while k < targets.len()
            invariant
                self.wf(),
                *self == *old(self),
                n == self.count(),
                d0 == self.dead@,
                k <= targets@.len(),
                forall|m: int| 0 <= m < targets@.len() ==> #[trigger] targets@[m] < n,
                last_live matches Some(l) ==> l < k && !d0[targets@[l as int] as int]
                    && forall|m: int| l < m < k ==> d0[#[trigger] targets@[m] as int],
                last_live is None ==> forall|m: int| 0 <= m < k ==> d0[#[trigger] targets@[m] as int],
            decreases targets@.len() - k,
        {
            if !self.dead[targets[k]] {
                last_live = Some(k);
            }
            k = k + 1;
        }
        let mut held: Option<T> = Some(data);
        let ghost mut es: Seq<(usize, T, Result<(), Backpressure>)> = Seq::empty();
        let mut k: usize = 0;
        while k < targets.len()
            invariant
                self.wf(),
                n == self.count(),
                self.edges@ == old(self).edges@,
                self.fan_outs@ == old(self).fan_outs@,
                self.polls@ == old(self).polls@,
                targets@ == old(self).targets_of(from as int),
                targets@.no_duplicates(),
                forall|m: int| 0 <= m < targets@.len() ==> #[trigger] targets@[m] < n,
                d0 == old(self).dead@,
                k <= targets@.len(),
                self.log@ == old(self).log@ + es,
                feeds(targets@.take(k as int), d0, es),
                forall|j: int| 0 <= j < es.len() ==> targets@.take(k as int).contains(#[trigger] es[j].0),
                forall|i: int| 0 <= i < n ==> #[trigger] self.dead@[i] == (d0[i] || closed_in(es, i)),
                work@ == old(work)@ + old(self).queued(es),
                forall|j: int| 0 <= j < work@.len() ==> #[trigger] work@[j] < n,
                last_live matches Some(l) ==> l < targets@.len() && !d0[targets@[l as int] as int]
                    && forall|m: int| l < m < targets@.len() ==> d0[#[trigger] targets@[m] as int],
                last_live is None ==> forall|m: int| 0 <= m < targets@.len() ==> d0[#[trigger] targets@[m] as int],
                held matches Some(h) ==> h == data && forall|j: int| 0 <= j < es.len() ==> cloned(data, #[trigger] es[j].1),
                held matches Some(h) ==> (last_live matches Some(l) ==> k <= l),
                last_live is None ==> es.len() == 0,
                held is None ==> es.len() > 0 && es.last().1 == data
                    && (forall|j: int| 0 <= j < es.len() - 1 ==> cloned(data, #[trigger] es[j].1))
                    && forall|m: int| k <= m < targets@.len() ==> d0[#[trigger] targets@[m] as int],
            decreases targets@.len() - k,
        {
            let to = targets[k];
            let ghost pre_es = es;
            let ghost pre_work = work@;
            let ghost pre_dead = self.dead@;
            proof {
                assert(targets@.take(k + 1).drop_last() =~= targets@.take(k as int));
                assert(targets@.take(k + 1).last() == to);
                assert(!closed_in(es, to as int)) by {
                    if closed_in(es, to as int) {
                        let j = choose|j: int| 0 <= j < es.len() && es[j].0 == to && es[j].2 == Err::<(), Backpressure>(Backpressure::Closed);
                        assert(targets@.take(k as int).contains(es[j].0));
                        let m = choose|m: int| 0 <= m < k && targets@[m] == es[j].0;
                        assert(targets@[m] == targets@[k as int]);
                    }
                }
            }
            if !self.dead[to] {
                let is_last = match last_live {
                    Some(l) => l == k,
                    None => false,
                };
                let ghost item_sent: T;
                if is_last {
                    match held.take() {
                        Some(item) => {
                            proof { item_sent = item; }
                            self.feed(to, item, work);
                        },
                        None => {
                            proof { item_sent = arbitrary(); }
                        },
                    }
                } else {
                    match &held {
                        Some(d) => {
                            let item = d.clone();
                            proof { item_sent = item; }
                            self.feed(to, item, work);
                        },
                        None => {
                            proof { item_sent = arbitrary(); }
                        },
                    }
                }
                proof {
                    let e = self.log@.last();
                    es = pre_es.push(e);
                    assert(self.log@ =~= old(self).log@ + es);
                    assert(es.drop_last() =~= pre_es);
                    assert(e.0 == to);
                    assert forall|j: int| 0 <= j < es.len() implies targets@.take(k + 1).contains(#[trigger] es[j].0) by {
                        if j < pre_es.len() {
                            assert(targets@.take(k as int).contains(pre_es[j].0));
                            let m = choose|m: int| 0 <= m < k && targets@.take(k as int)[m] == pre_es[j].0;
                            assert(targets@.take(k + 1)[m] == pre_es[j].0);
                        } else {
                            assert(targets@.take(k + 1)[k as int] == to);
                        }
                    }
                    assert forall|i: int| 0 <= i < n implies #[trigger] self.dead@[i] == (d0[i] || closed_in(es, i)) by {
                        if closed_in(pre_es, i) {
                            let j = choose|j: int| 0 <= j < pre_es.len() && pre_es[j].0 == i && pre_es[j].2 == Err::<(), Backpressure>(Backpressure::Closed);
                            assert(es[j] == pre_es[j]);
                        }
                        if closed_in(es, i) && !closed_in(pre_es, i) {
                            let j = choose|j: int| 0 <= j < es.len() && es[j].0 == i && es[j].2 == Err::<(), Backpressure>(Backpressure::Closed);
                            if j < pre_es.len() {
                                assert(es[j] == pre_es[j]);
                            }
                        }
                        if i == to as int && e.2 == Err::<(), Backpressure>(Backpressure::Closed) {
                            assert(es[es.len() - 1] == e);
                        }
                    }
                    old(self).lemma_queued_push(pre_es, e);
                    assert(work@ =~= old(work)@ + old(self).queued(es));
                    if held is Some {
                        assert forall|j: int| 0 <= j < es.len() implies cloned(data, #[trigger] es[j].1) by {
                            if j < pre_es.len() {
                                assert(es[j] == pre_es[j]);
                            }
                        }
                    } else {
                        assert forall|j: int| 0 <= j < es.len() - 1 implies cloned(data, #[trigger] es[j].1) by {
                            assert(es[j] == pre_es[j]);
                        }
                    }
                }
            } else {
                proof {
                    assert(d0[to as int]);
                }
            }
            k = k + 1;
        }
        proof {
            assert(targets@.take(targets@.len() as int) =~= targets@);
            let fin = self.log@;
            assert(fin.subrange(0, old(self).log@.len() as int) =~= old(self).log@);
            assert(fin.subrange(old(self).log@.len() as int, fin.len() as int) =~= es);
        }
    }

    /// The logs of `self` extend those of `start`.
    #[verifier::opaque]
    pub open spec fn logs_extend(&self, start: &Self) -> bool {
        &&& start.polled().len() <= self.polled().len()
        &&& self.polled().subrange(0, start.polled().len() as int) == start.polled()
        &&& start.visits().len() <= self.visits().len()
        &&& self.visits().subrange(0, start.visits().len() as int) == start.visits()
        &&& start.sends().len() <= self.sends().len()
        &&& self.sends().subrange(0, start.sends().len() as int) == start.sends()
        &&& start.deliveries().len() <= self.deliveries().len()
        &&& self.deliveries().subrange(0, start.deliveries().len() as int) == start.deliveries()
    }

    /// Every transport that was live and had targets at `start` was taken
    /// from the queue since.
    #[verifier::opaque]
    pub open spec fn visits_cover(&self, start: &Self) -> bool {
        forall|i: int| 0 <= i < start.count() && !start.is_dead(i) && #[trigger] start.routes_onward(i) ==>
            exists|j: int| #![trigger self.visits()[j]] start.visits().len() <= j < self.visits().len() && self.visits()[j].0 == i
    }

    /// Since `start`, a transport taken from the queue dead is still dead,
    /// and one taken live with targets that reported space was polled.
    #[verifier::opaque]
    pub open spec fn visits_lead_to_polls(&self, start: &Self) -> bool {
        forall|j: int| start.visits().len() <= j < self.visits().len() ==> {
            let v = #[trigger] self.visits()[j];
            &&& v.0 < start.count()
            &&& v.1 ==> self.is_dead(v.0 as int)
            &&& !v.1 && v.2 ==> exists|p: int| #![trigger self.polled()[p]] start.polled().len() <= p < self.polled().len() && self.polled()[p].0 == v.0
        }
    }

    /// Since `start`, every item a poll produced was sent on.
    #[verifier::opaque]
    pub open spec fn items_sent(&self, start: &Self) -> bool {
        forall|p: int| start.polled().len() <= p < self.polled().len() && (#[trigger] self.polled()[p]).2 ==>
            exists|k: int| #![trigger self.sends()[k]] start.sends().len() <= k < self.sends().len() && self.sends()[k].0 == p
    }

    /// Since `start`, every item sent on was produced by a poll and fed to
    /// the live targets of the polled transport (as connected at `start`),
    /// in order: clones to all but the last, the item itself to the last.
    #[verifier::opaque]
    pub open spec fn sends_fed(&self, start: &Self) -> bool {
        forall|k: int| start.sends().len() <= k < self.sends().len() ==> {
            let x = #[trigger] self.sends()[k];
            let es = self.deliveries().subrange(x.2, x.3);
            &&& start.polled().len() <= x.0 < self.polled().len()
            &&& self.polled()[x.0].2
            &&& start.deliveries().len() <= x.2 <= x.3 <= self.deliveries().len()
            &&& feeds(start.targets_of(self.polled()[x.0].0 as int), x.4, es)
            &&& forall|j: int| 0 <= j < es.len() - 1 ==> cloned(x.1, #[trigger] es[j].1)
            &&& es.len() > 0 ==> es.last().1 == x.1
        }
    }

    /// Since `start`, every target that answered `Closed` is dead.
    #[verifier::opaque]
    pub open spec fn closed_dead(&self, start: &Self) -> bool {
        forall|k: int| start.deliveries().len() <= k < self.deliveries().len()
            && (#[trigger] self.deliveries()[k]).2 == Err::<(), Backpressure>(Backpressure::Closed) ==>
            self.deliveries()[k].0 < start.count() && self.is_dead(self.deliveries()[k].0 as int)
    }

    /// What follows one poll of transport `index`, whose outcome was
    /// `outcome`: an item is sent to its targets (see `send_from`) and the
    /// sending recorded, an error queues the transport for removal in
    /// `to_kill`, and anything else changes nothing. The poll is recorded
    /// with whether it reported an error and whether it produced an item.
    fn on_polled(&mut self, index: usize, outcome: Poll<Action<T>>, work: &mut VecDeque<usize>, to_kill: &mut Vec<usize>)
        requires
            old(self).wf(),
            index < old(self).count(),
            forall|k: int| 0 <= k < old(work)@.len() ==> #[trigger] old(work)@[k] < old(self).count(),
            forall|k: int| 0 <= k < old(to_kill)@.len() ==> #[trigger] old(to_kill)@[k] < old(self).count(),
        ensures
            final(self).wf(),
            final(self).count() == old(self).count(),
            final(self).edges@ == old(self).edges@,
            final(self).fan_outs@ == old(self).fan_outs@,
            forall|k: int| 0 <= k < final(work)@.len() ==> #[trigger] final(work)@[k] < final(self).count(),
            forall|k: int| 0 <= k < final(to_kill)@.len() ==> #[trigger] final(to_kill)@[k] < final(self).count(),
            final(self).polled() == old(self).polled().push((index, outcome matches Poll::Ready(Action::Error(_)),
                outcome matches Poll::Ready(Action::Data(_)))),
            final(self).visits() == old(self).visits(),
            outcome matches Poll::Ready(Action::Error(_)) ==> final(to_kill)@ == old(to_kill)@.push(index)
                && final(self).dead@ == old(self).dead@ && final(self).deliveries() == old(self).deliveries()
                && final(work)@ == old(work)@,
            !(outcome matches Poll::Ready(Action::Error(_))) ==> final(to_kill)@ == old(to_kill)@,
            !(outcome matches Poll::Ready(Action::Data(_))) ==> final(self).sends() == old(self).sends(),
            !(outcome matches Poll::Ready(Action::Data(_))) && !(outcome matches Poll::Ready(Action::Error(_))) ==>
                final(self).dead@ == old(self).dead@ && final(self).deliveries() == old(self).deliveries()
                && final(work)@ == old(work)@,
            outcome matches Poll::Ready(Action::Data(d)) ==> {
                let es = final(self).deliveries().subrange(old(self).deliveries().len() as int, final(self).deliveries().len() as int);
                &&& old(self).deliveries().len() <= final(self).deliveries().len()
                &&& final(self).deliveries().subrange(0, old(self).deliveries().len() as int) == old(self).deliveries()
                &&& final(self).sends() == old(self).sends().push((old(self).polled().len() as int, d,
                    old(self).deliveries().len() as int, final(self).deliveries().len() as int, old(self).dead_flags()))
                &&& feeds(old(self).targets_of(index as int), old(self).dead_flags(), es)
                &&& forall|j: int| 0 <= j < es.len() - 1 ==> cloned(d, #[trigger] es[j].1)
                &&& es.len() > 0 ==> es.last().1 == d
                &&& forall|i: int| 0 <= i < old(self).count() ==> #[trigger] final(self).is_dead(i) == (old(self).is_dead(i) || closed_in(es, i))
                &&& final(work)@ == old(work)@ + old(self).queued(es)
            },
    {
        let ghost errored = outcome matches Poll::Ready(Action::Error(_));
        let ghost produced = outcome matches Poll::Ready(Action::Data(_));
        proof {
            self.polls@ = (self.polls@.0.push((index, errored, produced)), self.polls@.1, self.polls@.2);
        }
        let ghost pre = *self;
        match outcome {
            Poll::Ready(Action::Data(d)) => {
                let ghost item = d;
                self.send_from(index, d, work);
                proof {
                    assert(pre.deliveries() == old(self).deliveries());
                    assert(pre.dead@ == old(self).dead@);
                    assert(pre.targets_of(index as int) == old(self).targets_of(index as int));
                    assert(pre.dead_flags() == old(self).dead_flags());
                    assert forall|i: int| 0 <= i < old(self).count() implies #[trigger] pre.is_dead(i) == old(self).is_dead(i) by {}
                    old(self).lemma_queued_frame(&pre, self.deliveries().subrange(old(self).deliveries().len() as int, self.deliveries().len() as int));
                    let ghost sent = *self;
                    self.polls@ = (self.polls@.0, self.polls@.1, self.polls@.2.push((old(self).polls@.0.len() as int, item,
                        old(self).log@.len() as int, self.log@.len() as int, old(self).dead@)));
                    assert(self.dead@ == sent.dead@ && self.log@ == sent.log@);
                    assert forall|i: int| 0 <= i < old(self).count() implies #[trigger] self.is_dead(i) == sent.is_dead(i) by {}
                }
            },
            Poll::Ready(Action::Error(_)) => to_kill.push(index),
            _ => {},
        }
    }

    /// Every delivery of a feeding goes to one of the targets fed.
    proof fn lemma_feeds_targets(targets: Seq<usize>, dead: Seq<bool>, es: Seq<(usize, T, Result<(), Backpressure>)>)
        requires
            feeds(targets, dead, es),
        ensures
            forall|k: int| 0 <= k < es.len() ==> targets.contains(#[trigger] es[k].0),
        decreases targets.len(),
    {
        if targets.len() > 0 {
            if dead[targets.last() as int] {
                Self::lemma_feeds_targets(targets.drop_last(), dead, es);
                assert forall|k: int| 0 <= k < es.len() implies targets.contains(#[trigger] es[k].0) by {
                    let m = choose|m: int| 0 <= m < targets.drop_last().len() && targets.drop_last()[m] == es[k].0;
                    assert(targets[m] == es[k].0);
                }
            } else {
                Self::lemma_feeds_targets(targets.drop_last(), dead, es.drop_last());
                assert forall|k: int| 0 <= k < es.len() implies targets.contains(#[trigger] es[k].0) by {
                    if k == es.len() - 1 {
                        assert(targets[targets.len() - 1] == es[k].0);
                    } else {
                        assert(es.drop_last()[k] == es[k]);
                        let m = choose|m: int| 0 <= m < targets.drop_last().len() && targets.drop_last()[m] == es.drop_last()[k].0;
                        assert(targets[m] == es[k].0);
                    }
                }
            }
        }
    }

    /// The targets of a transport are transports of the driver.
    proof fn lemma_targets_bounded(&self, from: int)
        requires
            self.wf(),
            0 <= from < self.count(),
        ensures
            forall|t: usize| self.targets_of(from).contains(t) ==> t < self.count(),
    {
        assert(self.edges@[from] == self.edges@[from]);
        assert(self.fan_outs@[from] == self.fan_outs@[from]);
        assert forall|t: usize| self.targets_of(from).contains(t) implies t < self.count() by {
            let m = choose|m: int| 0 <= m < self.targets_of(from).len() && self.targets_of(from)[m] == t;
            match self.edges@[from] {
                Some(e) => {},
                None => match self.fan_outs@[from] {
                    Some(v) => {
                        assert(v@[m] == t);
                    },
                    None => {},
                },
            }
        }
    }

    /// One poll and its sending keep the round's facts: `pre` is the driver
    /// before transport `index` (live, with targets that reported space) was
    /// polled, `post` after the poll was handled and the visit recorded;
    /// `item` is the item the poll produced, if any, and `err` whether it
    /// reported an error.
    #[verifier::rlimit(100)]
    proof fn lemma_after_poll(start: &Self, pre: &Self, post: &Self, index: usize, err: bool, item: Option<T>)
        requires
            start.wf(),
            pre.wf(),
            pre.count() == start.count(),
            post.count() == start.count(),
            pre.edges@ == start.edges@,
            pre.fan_outs@ == start.fan_outs@,
            index < start.count(),
            forall|j: int| 0 <= j < start.count() && start.is_dead(j) ==> #[trigger] pre.is_dead(j),
            pre.logs_extend(start),
            pre.visits_lead_to_polls(start),
            pre.items_sent(start),
            pre.sends_fed(start),
            pre.closed_dead(start),
            post.polled() == pre.polled().push((index, err, item is Some)),
            post.visits() == pre.visits().push((index, false, true)),
            item is None ==> post.sends() == pre.sends() && post.deliveries() == pre.deliveries() && post.dead@ == pre.dead@,
            item matches Some(d) ==> {
                let es = post.deliveries().subrange(pre.deliveries().len() as int, post.deliveries().len() as int);
                &&& pre.deliveries().len() <= post.deliveries().len()
                &&& post.deliveries().subrange(0, pre.deliveries().len() as int) == pre.deliveries()
                &&& post.sends() == pre.sends().push((pre.polled().len() as int, d,
                    pre.deliveries().len() as int, post.deliveries().len() as int, pre.dead_flags()))
                &&& feeds(pre.targets_of(index as int), pre.dead_flags(), es)
                &&& forall|j: int| 0 <= j < es.len() - 1 ==> cloned(d, #[trigger] es[j].1)
                &&& es.len() > 0 ==> es.last().1 == d
                &&& forall|i: int| 0 <= i < pre.count() ==> #[trigger] post.is_dead(i) == (pre.is_dead(i) || closed_in(es, i))
            },
        ensures
            forall|j: int| 0 <= j < start.count() && pre.is_dead(j) ==> #[trigger] post.is_dead(j),
            forall|j: int| 0 <= j < start.count() && start.is_dead(j) ==> #[trigger] post.is_dead(j),
            post.logs_extend(start),
            post.visits_lead_to_polls(start),
            post.items_sent(start),
            post.sends_fed(start),
            post.closed_dead(start),
    {
        reveal(Driver::logs_extend);
        reveal(Driver::visits_lead_to_polls);
        reveal(Driver::items_sent);
        reveal(Driver::sends_fed);
        reveal(Driver::closed_dead);
        let n = start.count();
        let pl = pre.polled().len() as int;
        let vl = pre.visits().len() as int;
        let dl = pre.deliveries().len() as int;
        let sl = pre.sends().len() as int;
        assert forall|j: int| 0 <= j < n && pre.is_dead(j) implies #[trigger] post.is_dead(j) by {
            if item is None {
                assert(post.dead@ == pre.dead@);
            }
        }
        assert(post.deliveries().subrange(0, dl) == pre.deliveries()) by {
            if item is None {
                assert(post.deliveries().subrange(0, dl) =~= pre.deliveries());
            }
        }
        assert forall|p: int| 0 <= p < pl implies #[trigger] post.polled()[p] == pre.polled()[p] by {}
        assert forall|j: int| 0 <= j < vl implies #[trigger] post.visits()[j] == pre.visits()[j] by {}
        assert forall|k: int| 0 <= k < sl implies #[trigger] post.sends()[k] == pre.sends()[k] by {}
        assert forall|q: int| 0 <= q < dl implies #[trigger] post.deliveries()[q] == pre.deliveries()[q] by {
            assert(post.deliveries().subrange(0, dl)[q] == post.deliveries()[q]);
        }
        assert(post.polled().subrange(0, start.polled().len() as int) =~= start.polled()) by {
            assert(pre.polled().subrange(0, start.polled().len() as int) == start.polled());
        }
        assert(post.visits().subrange(0, start.visits().len() as int) =~= start.visits()) by {
            assert(pre.visits().subrange(0, start.visits().len() as int) == start.visits());
        }
        assert(post.sends().subrange(0, start.sends().len() as int) =~= start.sends()) by {
            assert(pre.sends().subrange(0, start.sends().len() as int) == start.sends());
        }
        assert(post.deliveries().subrange(0, start.deliveries().len() as int) =~= start.deliveries()) by {
            assert(pre.deliveries().subrange(0, start.deliveries().len() as int) == start.deliveries());
        }
        assert forall|j: int| start.visits().len() <= j < post.visits().len() implies {
            let v = #[trigger] post.visits()[j];
            &&& v.0 < start.count()
            &&& v.1 ==> post.is_dead(v.0 as int)
            &&& !v.1 && v.2 ==> exists|p: int| #![trigger post.polled()[p]] start.polled().len() <= p < post.polled().len() && post.polled()[p].0 == v.0
        } by {
            if j == vl {
                assert(post.polled()[pl].0 == index);
            } else {
                let v = pre.visits()[j];
                if !v.1 && v.2 {
                    let p = choose|p: int| start.polled().len() <= p < pre.polled().len() && #[trigger] pre.polled()[p].0 == v.0;
                    assert(post.polled()[p] == pre.polled()[p]);
                }
            }
        }
        assert forall|p: int| start.polled().len() <= p < post.polled().len() && (#[trigger] post.polled()[p]).2 implies
            exists|k: int| #![trigger post.sends()[k]] start.sends().len() <= k < post.sends().len() && post.sends()[k].0 == p by {
            if p == pl {
                assert(post.sends()[sl].0 == pl);
            } else {
                let k = choose|k: int| start.sends().len() <= k < pre.sends().len() && #[trigger] pre.sends()[k].0 == p;
                assert(post.sends()[k] == pre.sends()[k]);
            }
        }
        assert(pre.targets_of(index as int) == start.targets_of(index as int));
        assert forall|k: int| start.sends().len() <= k < post.sends().len() implies {
            let x = #[trigger] post.sends()[k];
            let es = post.deliveries().subrange(x.2, x.3);
            &&& start.polled().len() <= x.0 < post.polled().len()
            &&& post.polled()[x.0].2
            &&& start.deliveries().len() <= x.2 <= x.3 <= post.deliveries().len()
            &&& feeds(start.targets_of(post.polled()[x.0].0 as int), x.4, es)
            &&& forall|j: int| 0 <= j < es.len() - 1 ==> cloned(x.1, #[trigger] es[j].1)
            &&& es.len() > 0 ==> es.last().1 == x.1
        } by {
            if k < sl {
                let x = pre.sends()[k];
                assert(post.polled()[x.0] == pre.polled()[x.0]);
                assert(post.deliveries().subrange(x.2, x.3) =~= pre.deliveries().subrange(x.2, x.3));
            } else {
                assert(post.polled()[pl] == (index, err, true));
            }
        }
        if item matches Some(d) {
            let es = post.deliveries().subrange(dl, post.deliveries().len() as int);
            Self::lemma_feeds_targets(pre.targets_of(index as int), pre.dead_flags(), es);
            pre.lemma_targets_bounded(index as int);
        }
        assert forall|q: int| start.deliveries().len() <= q < post.deliveries().len()
            && (#[trigger] post.deliveries()[q]).2 == Err::<(), Backpressure>(Backpressure::Closed) implies
            post.deliveries()[q].0 < start.count() && post.is_dead(post.deliveries()[q].0 as int) by {
            if q < dl {
                assert(post.deliveries()[q] == pre.deliveries()[q]);
            } else {
                let es = post.deliveries().subrange(dl, post.deliveries().len() as int);
                assert(es[q - dl] == post.deliveries()[q]);
                assert(pre.targets_of(index as int).contains(es[q - dl].0));
                assert(closed_in(es, es[q - dl].0 as int));
            }
        }
    }

    /// Taking transport `index` from the queue without polling it (it was
    /// dead, or its targets reported no space) keeps the round's facts.
    #[verifier::rlimit(100)]
    proof fn lemma_after_skip(start: &Self, pre: &Self, post: &Self, index: usize, dead_now: bool, ready: bool)
        requires
            index < start.count(),
            dead_now ==> pre.is_dead(index as int),
            dead_now || !ready,
            pre.logs_extend(start),
            pre.visits_lead_to_polls(start),
            pre.items_sent(start),
            pre.sends_fed(start),
            pre.closed_dead(start),
            post.polled() == pre.polled(),
            post.sends() == pre.sends(),
            post.deliveries() == pre.deliveries(),
            post.dead@ == pre.dead@,
            post.visits() == pre.visits().push((index, dead_now, ready)),
        ensures
            post.logs_extend(start),
            post.visits_lead_to_polls(start),
            post.items_sent(start),
            post.sends_fed(start),
            post.closed_dead(start),
    {
        reveal(Driver::logs_extend);
        reveal(Driver::visits_lead_to_polls);
        reveal(Driver::items_sent);
        reveal(Driver::sends_fed);
        reveal(Driver::closed_dead);
        let vl = pre.visits().len() as int;
        assert forall|j: int| 0 <= j < vl implies #[trigger] post.visits()[j] == pre.visits()[j] by {}
        assert(post.visits().subrange(0, start.visits().len() as int) =~= start.visits()) by {
            assert(pre.visits().subrange(0, start.visits().len() as int) == start.visits());
        }
        assert forall|i: int| #[trigger] post.is_dead(i) == pre.is_dead(i) by {}
        assert forall|j: int| start.visits().len() <= j < post.visits().len() implies {
            let v = #[trigger] post.visits()[j];
            &&& v.0 < start.count()
            &&& v.1 ==> post.is_dead(v.0 as int)
            &&& !v.1 && v.2 ==> exists|p: int| #![trigger post.polled()[p]] start.polled().len() <= p < post.polled().len() && post.polled()[p].0 == v.0
        } by {
            if j < vl {
                assert(post.visits()[j] == pre.visits()[j]);
            }
        }
    }

    /// Taking transports out of routing at the end of a round keeps the
    /// round's facts: the logs stay, and what was dead stays dead.
    proof fn lemma_after_kills(start: &Self, pre: &Self, post: &Self)
        requires
            pre.logs_extend(start),
            pre.visits_lead_to_polls(start),
            pre.items_sent(start),
            pre.sends_fed(start),
            pre.closed_dead(start),
            post.polls@ == pre.polls@,
            post.log@ == pre.log@,
            forall|j: int| 0 <= j < start.count() && pre.is_dead(j) ==> #[trigger] post.is_dead(j),
        ensures
            post.logs_extend(start),
            post.visits_lead_to_polls(start),
            post.items_sent(start),
            post.sends_fed(start),
            post.closed_dead(start),
    {
        reveal(Driver::logs_extend);
        reveal(Driver::visits_lead_to_polls);
        reveal(Driver::items_sent);
        reveal(Driver::sends_fed);
        reveal(Driver::closed_dead);
        assert forall|j: int| start.visits().len() <= j < post.visits().len() implies {
            let v = #[trigger] post.visits()[j];
            &&& v.0 < start.count()
            &&& v.1 ==> post.is_dead(v.0 as int)
            &&& !v.1 && v.2 ==> exists|p: int| #![trigger post.polled()[p]] start.polled().len() <= p < post.polled().len() && post.polled()[p].0 == v.0
        } by {
            let v = pre.visits()[j];
            if v.1 {
                assert(pre.is_dead(v.0 as int));
            }
            if !v.1 && v.2 {
                let p = choose|p: int| start.polled().len() <= p < pre.polled().len() && #[trigger] pre.polled()[p].0 == v.0;
                assert(post.polled()[p] == pre.polled()[p]);
            }
        }
        assert forall|q: int| start.deliveries().len() <= q < post.deliveries().len()
            && (#[trigger] post.deliveries()[q]).2 == Err::<(), Backpressure>(Backpressure::Closed) implies
            post.deliveries()[q].0 < start.count() && post.is_dead(post.deliveries()[q].0 as int) by {
            assert(pre.deliveries()[q] == post.deliveries()[q]);
        }        assert(post.polled() == pre.polled() && post.visits() == pre.visits() && post.sends() == pre.sends());
        assert(post.deliveries() == pre.deliveries());
    }

    /// A round's logs start out extending themselves, with nothing new to account for.
    proof fn lemma_round_start(start: &Self)
        ensures
            start.logs_extend(start),
            start.visits_lead_to_polls(start),
            start.items_sent(start),
            start.sends_fed(start),
            start.closed_dead(start),
    {
        reveal(Driver::logs_extend);
        reveal(Driver::visits_lead_to_polls);
        reveal(Driver::items_sent);
        reveal(Driver::sends_fed);
        reveal(Driver::closed_dead);
        assert(start.polled().subrange(0, start.polled().len() as int) =~= start.polled());
        assert(start.visits().subrange(0, start.visits().len() as int) =~= start.visits());
        assert(start.sends().subrange(0, start.sends().len() as int) =~= start.sends());
        assert(start.deliveries().subrange(0, start.deliveries().len() as int) =~= start.deliveries());
    }

    /// Runs one round of routing, as the original driver does: every live
    /// transport that has targets is queued; each transport taken from the
    /// queue is polled if it is live and its targets report space; an item
    /// it produces is sent to its targets (and the targets that accept it
    /// and have targets of their own are queued in turn); a target that
    /// answers `Closed` is marked dead; transports that report an error are
    /// taken out of routing at the end of the round. A round takes at most
    /// `usize::MAX` transports from the queue.
    pub fn poll(&mut self, cx: &mut Context<'_>)
        requires
            old(self).wf(),
        ensures
            final(self).wf(),
            final(self).count() == old(self).count(),
            forall|a: int, b: int| 0 <= a < old(self).count() && 0 <= b < old(self).count() && #[trigger] final(self).links(a, b) ==> old(self).links(a, b),
            forall|i: int| 0 <= i < old(self).count() && old(self).is_dead(i) ==> #[trigger] final(self).is_dead(i),
            final(self).logs_extend(&*old(self)),
            final(self).visits_cover(&*old(self)),
            final(self).visits_lead_to_polls(&*old(self)),
            final(self).items_sent(&*old(self)),
            final(self).sends_fed(&*old(self)),
            final(self).closed_dead(&*old(self)),
            forall|j: int| old(self).polled().len() <= j < final(self).polled().len() ==>
                (#[trigger] final(self).polled()[j]).0 < old(self).count() && !old(self).is_dead(final(self).polled()[j].0 as int),
            forall|j: int| old(self).polled().len() <= j < final(self).polled().len() && (#[trigger] final(self).polled()[j]).1 ==> {
                let x = final(self).polled()[j].0 as int;
                &&& final(self).is_dead(x)
                &&& forall|b: int| 0 <= b < old(self).count() ==> !final(self).links(x, b) && !final(self).links(b, x)
            },
    {
        let n = self.transports.len();
        let mut work: VecDeque<usize> = VecDeque::new();
        let mut to_kill: Vec<usize> = Vec::new();
        let mut i: usize = 0;
        while i < n
            invariant
                self.wf(),
                n == self.count(),
                *self == *old(self),
                i <= n,
                work@.len() <= i,
                forall|j: int| 0 <= j < work@.len() ==> #[trigger] work@[j] < n,
                forall|j: int| 0 <= j < i && !self.is_dead(j) && #[trigger] self.routes_onward(j) ==> work@.contains(j as usize),
            decreases n - i,
        {
            if !self.dead[i] && self.has_targets(i) {
                let ghost w0 = work@;
                work.push_back(i);
                proof {
                    assert(work@[work@.len() - 1] == i);
                    assert forall|j: int| 0 <= j < i + 1 && !self.is_dead(j) && #[trigger] self.routes_onward(j) implies work@.contains(j as usize) by {
                        if j < i {
                            let m = choose|m: int| 0 <= m < w0.len() && w0[m] == j as usize;
                            assert(work@[m] == w0[m]);
                        }
                    }
                }
            }
            i = i + 1;
        }
        let ghost init = work@;
        let ghost v0 = self.polls@.1.len();
        proof {
            Self::lemma_round_start(&*self);
        }
        let mut steps: usize = 0;
        while steps < usize::MAX
            invariant
                self.wf(),
                n == self.count(),
                v0 == old(self).polls@.1.len(),
                old(self).wf(),
                old(self).count() == n,
                init.len() <= n,
                forall|j: int| 0 <= j < init.len() ==> #[trigger] init[j] < n,
                forall|j: int| 0 <= j < n && !old(self).is_dead(j) && #[trigger] old(self).routes_onward(j) ==> init.contains(j as usize),
                self.edges@ == old(self).edges@,
                self.fan_outs@ == old(self).fan_outs@,
                forall|j: int| 0 <= j < n && old(self).is_dead(j) ==> #[trigger] self.is_dead(j),
                forall|j: int| 0 <= j < work@.len() ==> #[trigger] work@[j] < n,
                forall|j: int| 0 <= j < to_kill@.len() ==> #[trigger] to_kill@[j] < n,
                self.logs_extend(&*old(self)),
                self.visits_lead_to_polls(&*old(self)),
                self.items_sent(&*old(self)),
                self.sends_fed(&*old(self)),
                self.closed_dead(&*old(self)),
                old(self).polls@.0.len() <= self.polls@.0.len(),
                v0 <= self.polls@.1.len(),
                forall|j: int| old(self).polls@.0.len() <= j < self.polls@.0.len() ==>
                    (#[trigger] self.polls@.0[j]).0 < n && !old(self).is_dead(self.polls@.0[j].0 as int)
                    && (self.polls@.0[j].1 ==> to_kill@.contains(self.polls@.0[j].0)),
                self.polls@.1.len() - v0 < init.len() ==> work@.len() >= init.len() - (self.polls@.1.len() - v0)
                    && forall|k: int| 0 <= k < init.len() - (self.polls@.1.len() - v0) ==>
                        #[trigger] work@[k] == init[(self.polls@.1.len() - v0) + k],
                forall|k: int| 0 <= k < init.len() && v0 + k < self.polls@.1.len() ==> #[trigger] self.polls@.1[v0 + k].0 == init[k],
                self.polls@.1.len() - v0 >= init.len() || self.polls@.1.len() - v0 == steps,
            decreases usize::MAX - steps,
        {
            let ghost s0 = *self;
            let ghost w0 = work@;
            let ghost k0 = to_kill@;
            let index = match work.pop_front() {
                Some(index) => index,
                None => {
                    steps = usize::MAX;
                    continue;
                },
            };
            steps = steps + 1;
            assert(index == w0[0] && index < n);
            let ghost w1 = work@;
            assert(w1 =~= w0.subrange(1, w0.len() as int));
            let dead_now = self.dead[index];
            let ready = if dead_now { false } else { self.targets_ready(index) };
            if dead_now || !ready {
                proof {
                    self.polls@ = (self.polls@.0, self.polls@.1.push((index, dead_now, ready)), self.polls@.2);
                    Self::lemma_after_skip(&*old(self), &s0, &*self, index, dead_now, ready);
                    assert forall|j: int| 0 <= j < n && old(self).is_dead(j) implies #[trigger] self.is_dead(j) by {
                        assert(s0.is_dead(j));
                    }
                }
            } else {
                let outcome = self.transports[index].poll_action(cx);
                let ghost mid = *self;
                assert(mid.polls@ == s0.polls@ && mid.dead@ == s0.dead@ && mid.log@ == s0.log@);
                let ghost item: Option<T> = item_of(outcome);
                let ghost err = outcome matches Poll::Ready(Action::Error(_));
                self.on_polled(index, outcome, &mut work, &mut to_kill);
                proof {
                    let ghost handled = *self;
                    self.polls@ = (self.polls@.0, self.polls@.1.push((index, false, true)), self.polls@.2);
                    assert(self.dead@ == handled.dead@ && self.log@ == handled.log@);
                    assert(self.deliveries() == handled.deliveries() && self.sends() == handled.sends() && self.polled() == handled.polled());
                    assert forall|i: int| #[trigger] self.is_dead(i) == handled.is_dead(i) by {}
                    assert forall|j: int| 0 <= j < n && old(self).is_dead(j) implies #[trigger] mid.is_dead(j) by {
                        assert(s0.is_dead(j));
                    }
                    assert(mid.edges@ == s0.edges@ && mid.fan_outs@ == s0.fan_outs@ && mid.transports@.len() == s0.transports@.len());
                    assert(mid.targets_of(index as int) == s0.targets_of(index as int));
                    assert(mid.dead_flags() == s0.dead_flags() && mid.deliveries() == s0.deliveries());
                    assert(mid.polled() == s0.polled() && mid.sends() == s0.sends() && mid.count() == s0.count());
                    assert forall|i: int| #[trigger] mid.is_dead(i) == s0.is_dead(i) by {}
                    Self::lemma_after_poll(&*old(self), &s0, &*self, index, err, item);
                    assert forall|j: int| old(self).polls@.0.len() <= j < self.polls@.0.len() implies
                        (#[trigger] self.polls@.0[j]).0 < n && !old(self).is_dead(self.polls@.0[j].0 as int)
                        && (self.polls@.0[j].1 ==> to_kill@.contains(self.polls@.0[j].0)) by {
                        if j < mid.polls@.0.len() {
                            assert(self.polls@.0[j] == mid.polls@.0[j]);
                            if mid.polls@.0[j].1 {
                                let m = choose|m: int| 0 <= m < k0.len() && k0[m] == mid.polls@.0[j].0;
                                assert(to_kill@[m] == k0[m]);
                            }
                        } else {
                            assert(self.polls@.0[j].0 == index);
                            assert(!s0.is_dead(index as int));
                            assert(!old(self).is_dead(index as int));
                            if self.polls@.0[j].1 {
                                assert(to_kill@[to_kill@.len() - 1] == index);
                            }
                        }
                    }
                    assert forall|k: int| 0 <= k < w1.len() implies #[trigger] work@[k] == w1[k] by {}
                }
            }
            proof {
                let nv = s0.polls@.1.len() - v0;
                assert(self.polls@.1.len() == s0.polls@.1.len() + 1);
                assert(self.polls@.1[s0.polls@.1.len() as int].0 == index);
                if nv < init.len() {
                    assert(index == init[nv]);
                    assert forall|k: int| 0 <= k < init.len() - (nv + 1) implies #[trigger] work@[k] == init[(nv + 1) + k] by {
                        assert(work@[k] == w1[k]);
                        assert(w1[k] == w0[k + 1]);
                    }
                }
                assert forall|k: int| 0 <= k < init.len() && v0 + k < self.polls@.1.len() implies #[trigger] self.polls@.1[v0 + k].0 == init[k] by {
                    if v0 + k < s0.polls@.1.len() {
                        assert(self.polls@.1[v0 + k] == s0.polls@.1[v0 + k]);
                    }
                }
            }
        }
        let ghost round_end = *self;
        proof {
            let nv = self.polls@.1.len() - v0;
            assert(nv >= init.len());
        }
        let mut k: usize = 0;
        while k < to_kill.len()
            invariant
                self.wf(),
                n == self.count(),
                forall|j: int| 0 <= j < to_kill@.len() ==> #[trigger] to_kill@[j] < n,
                forall|j: int| 0 <= j < n && round_end.is_dead(j) ==> #[trigger] self.is_dead(j),
                forall|a: int, b: int| 0 <= a < n && 0 <= b < n && #[trigger] self.links(a, b) ==> old(self).links(a, b),
                k <= to_kill@.len(),
                round_end.polls@ == self.polls@,
                round_end.log@ == self.log@,
                forall|m: int| 0 <= m < k ==> #[trigger] self.is_dead(to_kill@[m] as int)
                    && forall|b: int| 0 <= b < n ==> !self.links(to_kill@[m] as int, b) && !self.links(b, to_kill@[m] as int),
            decreases to_kill@.len() - k,
        {
            let idx = to_kill[k];
            let ghost pre = *self;
            self.kill_transport(idx);
            proof {
                assert forall|j: int| 0 <= j < n && round_end.is_dead(j) implies #[trigger] self.is_dead(j) by {
                    assert(pre.is_dead(j));
                    if j != idx {
                        assert(self.is_dead(j) == pre.is_dead(j));
                    }
                }
                assert forall|m: int| 0 <= m < k + 1 implies #[trigger] self.is_dead(to_kill@[m] as int)
                    && forall|b: int| 0 <= b < n ==> !self.links(to_kill@[m] as int, b) && !self.links(b, to_kill@[m] as int) by {
                    if m < k {
                        assert(pre.is_dead(to_kill@[m] as int));
                        if to_kill@[m] != idx {
                            assert(self.is_dead(to_kill@[m] as int) == pre.is_dead(to_kill@[m] as int));
                        }
                        assert forall|b: int| 0 <= b < n implies !self.links(to_kill@[m] as int, b) && !self.links(b, to_kill@[m] as int) by {
                            assert(!pre.links(to_kill@[m] as int, b) && !pre.links(b, to_kill@[m] as int));
                        }
                    }
                }
            }
            k = k + 1;
        }
        proof {
            reveal(Driver::visits_cover);
            assert forall|i: int| 0 <= i < old(self).count() && !old(self).is_dead(i) && #[trigger] old(self).routes_onward(i) implies
                exists|j: int| #![trigger self.visits()[j]] old(self).visits().len() <= j < self.visits().len() && self.visits()[j].0 == i by {
                assert(init.contains(i as usize));
                let k = choose|k: int| 0 <= k < init.len() && init[k] == i as usize;
                assert(round_end.polls@.1[v0 + k].0 == init[k]);
                assert(self.visits()[v0 + k].0 == i);
            }
            Self::lemma_after_kills(&*old(self), &round_end, &*self);
            assert forall|j: int| 0 <= j < n && old(self).is_dead(j) implies #[trigger] self.is_dead(j) by {
                assert(round_end.is_dead(j));
            }
            assert forall|j: int| old(self).polls@.0.len() <= j < self.polls@.0.len() && (#[trigger] self.polls@.0[j]).1 implies {
                let x = self.polls@.0[j].0 as int;
                &&& self.is_dead(x)
                &&& forall|b: int| 0 <= b < old(self).count() ==> !self.links(x, b) && !self.links(b, x)
            } by {
                let m = choose|m: int| 0 <= m < to_kill@.len() && to_kill@[m] == self.polls@.0[j].0;
                assert(self.is_dead(to_kill@[m] as int));
            }
        }
    }
}

/// Every element of a list whose elements all come from `old` lies below `n` and differs from `from`, as those of `old` do.
proof fn lemma_row_bounded(old: Seq<usize>, new: Seq<usize>, n: int, from: int)
    requires
        forall|j: int| 0 <= j < old.len() ==> #[trigger] old[j] < n && old[j] != from,
        forall|y: usize| new.contains(y) ==> old.contains(y),
    ensures
        forall|j: int| 0 <= j < new.len() ==> #[trigger] new[j] < n && new[j] != from,
{
    assert forall|j: int| 0 <= j < new.len() implies #[trigger] new[j] < n && new[j] != from by {
        assert(new.contains(new[j]));
        let k = choose|k: int| 0 <= k < old.len() && old[k] == new[j];
    }
}

/// Whether `v` holds `x`.
fn contains_index(v: &Vec<usize>, x: usize) -> (b: bool)
    ensures
        b == v@.contains(x),
{
    let mut i: usize = 0;
    while i < v.len()
        invariant
            i <= v@.len(),
            forall|j: int| 0 <= j < i ==> v@[j] != x,
        decreases v@.len() - i,
    {
        if v[i] == x {
            return true;
        }
        i = i + 1;
    }
    false
}

/// Removes `x` from `v`, if there, by swapping the last element into its place.
fn remove_index(v: &mut Vec<usize>, x: usize)
    requires
        old(v)@.no_duplicates(),
    ensures
        final(v)@.no_duplicates(),
        forall|y: usize| final(v)@.contains(y) <==> old(v)@.contains(y) && y != x,
{
    let mut i: usize = 0;
    while i < v.len()
        invariant
            v@ == old(v)@,
            old(v)@.no_duplicates(),
            i <= v@.len(),
            forall|j: int| 0 <= j < i ==> v@[j] != x,
        decreases v@.len() - i,
    {
        if v[i] == x {
            let ghost before = v@;
            v.swap_remove(i);
            proof {
                let last = before.len() - 1;
                assert forall|j: int| 0 <= j < v@.len() implies #[trigger] v@[j] == before[if j == i { last } else { j }] by {}
                assert forall|y: usize| v@.contains(y) <==> before.contains(y) && y != x by {
                    if v@.contains(y) {
                        let j = choose|j: int| 0 <= j < v@.len() && v@[j] == y;
                        let jj = if j == i { last } else { j };
                        assert(before[jj] == y);
                        assert(jj != i as int);
                    }
                    if before.contains(y) && y != x {
                        let j = choose|j: int| 0 <= j < before.len() && before[j] == y;
                        assert(j != i as int);
                        if j == last {
                            assert(v@[i as int] == y);
                        } else {
                            assert(v@[j] == y);
                        }
                    }
                }
                assert forall|j: int, k: int| 0 <= j < k < v@.len() implies v@[j] != v@[k] by {
                    let jj = if j == i { last } else { j };
                    let kk = if k == i { last } else { k };
                    assert(v@[j] == before[jj]);
                    assert(v@[k] == before[kk]);
                    assert(jj != kk);
                }
            }
            return;
        }
        i = i + 1;
    }
}

} // verus!
