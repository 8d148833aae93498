//! A stable, generational vector: O(1) insertion, removal and lookup through
//! keys that stay valid until their element is removed.
use crate::text::{decimal, decimal_string};
use vstd::prelude::*;
use vstd::string::*;

verus! {

/// Generation counter used in [`GenerationKey`].
pub type Generation = u64;

/// A type-safe, generational index: an `index` into the slot table and the
/// `generation` that slot must currently carry for the key to be live.
#[derive(Debug, Clone, Copy, PartialEq, Eq, Hash, Structural)]
pub struct GenerationKey {
    pub index: usize,
    pub generation: Generation,
}

impl GenerationKey {
    pub fn new(index: usize, generation: Generation) -> (k: Self)
        ensures
            k.index == index,
            k.generation == generation,
    {
        Self { index, generation }
    }

    pub fn index(&self) -> (i: usize)
        ensures
            i == self.index,
    {
        self.index
    }

    pub fn generation(&self) -> (g: Generation)
        ensures
            g == self.generation,
    {
        self.generation
    }
}

/// A stable, generational vector.
///
/// - `data` holds the live items packed, with no holes;
/// - `data_index[i]` is the position in `data` of the item whose key has index `i`;
/// - `id_map[pos]` is the inverse: the key index of the item at position `pos`;
/// - `generations[i]` is the generation a key with index `i` must carry.
///
/// Removal swaps the removed item with the last one and bumps the generation of
/// the removed key's slot, so a stale key never reaches a newer item.
#[derive(Clone)]
pub struct StableVec<T> {
    data: Vec<T>,
    data_index: Vec<usize>,
    id_map: Vec<usize>,
    generations: Vec<Generation>,
}

/// The structural invariant of a [`StableVec`], stated over its four parts.
pub open spec fn parts_wf<T>(
    data: Seq<T>,
    data_index: Seq<usize>,
    id_map: Seq<usize>,
    generations: Seq<Generation>,
) -> bool {
    let n = generations.len();
    &&& data_index.len() == n
    &&& id_map.len() == n
    &&& data.len() <= n
    &&& forall|p: int| 0 <= p < n ==> (#[trigger] id_map[p] as int) < n && data_index[id_map[p] as int] == p
    &&& forall|i: int| 0 <= i < n ==> (#[trigger] data_index[i] as int) < n && id_map[data_index[i] as int] == i
    &&& forall|i: int| 0 <= i < n ==> #[trigger] generations[i] > 0
}

impl<T> StableVec<T> {
    /// The structural invariant every operation keeps.
    pub closed spec fn wf(&self) -> bool {
        parts_wf(self.data@, self.data_index@, self.id_map@, self.generations@)
    }

    /// Number of slots (live and dead) in the slot table.
    pub closed spec fn slots(&self) -> nat {
        self.generations@.len()
    }

    /// The generation currently carried by slot `i`.
    pub closed spec fn generation_at(&self, i: int) -> Generation {
        self.generations@[i]
    }

    /// The live items in storage order.
    pub closed spec fn items(&self) -> Seq<T> {
        self.data@
    }

    /// The key of the item stored at position `pos` of [`Self::items`].
    pub closed spec fn key_at(&self, pos: int) -> GenerationKey {
        GenerationKey {
            index: self.id_map@[pos],
            generation: self.generations@[self.id_map@[pos] as int],
        }
    }

    /// Whether `key` currently names a live element.
    pub closed spec fn live(&self, key: GenerationKey) -> bool {
        &&& key.index < self.generations@.len()
        &&& self.generations@[key.index as int] == key.generation
        &&& self.data_index@[key.index as int] < self.data@.len()
    }

    /// The position in [`Self::items`] of the item a live key names.
    pub closed spec fn position_of(&self, key: GenerationKey) -> int {
        self.data_index@[key.index as int] as int
    }

    /// The four parts, as `(items, data_index, id_map, generations)`.
    pub closed spec fn parts(&self) -> (Seq<T>, Seq<usize>, Seq<usize>, Seq<Generation>) {
        (self.data@, self.data_index@, self.id_map@, self.generations@)
    }

    /// A key whose slot has moved past its generation: it can never be live again
    /// as long as the slot table only grows and generations only increase.
    pub open spec fn retired(&self, key: GenerationKey) -> bool {
        key.index < self.slots() && key.generation < self.generation_at(key.index as int)
    }

    /// Generations never decrease and the slot table never shrinks.
    pub open spec fn generations_grow_to(&self, other: &Self) -> bool {
        &&& self.slots() <= other.slots()
        &&& forall|i: int| 0 <= i < self.slots() ==> #[trigger] self.generation_at(i) <= other.generation_at(i)
    }
}

impl<T> View for StableVec<T> {
    type V = Map<GenerationKey, T>;

    /// The live elements, keyed by their current keys.
    closed spec fn view(&self) -> Map<GenerationKey, T> {
        Map::new(|k: GenerationKey| self.live(k), |k: GenerationKey| self.data@[self.data_index@[k.index as int] as int])
    }
}

/// Retired keys are never live.
pub proof fn lemma_retired_not_live<T>(sv: &StableVec<T>, key: GenerationKey)
    requires
        sv.retired(key),
    ensures
        !sv@.contains_key(key),
{
}

/// In a well-formed vector the live keys are exactly the keys of the stored
/// items, and each key maps to the item at its position.
pub proof fn lemma_live_keys_are_positions<T>(sv: &StableVec<T>, pos: int)
    requires
        sv.wf(),
        0 <= pos < sv.items().len(),
    ensures
        sv@.contains_key(sv.key_at(pos)),
        sv@[sv.key_at(pos)] == sv.items()[pos],
{
}

/// Each live key is the key of exactly one stored item.
pub proof fn lemma_live_key_has_position<T>(sv: &StableVec<T>, key: GenerationKey)
    requires
        sv.wf(),
        sv@.contains_key(key),
    ensures
        exists|pos: int| 0 <= pos < sv.items().len() && sv.key_at(pos) == key && sv@[key] == sv.items()[pos],
{
    let pos = sv.data_index@[key.index as int] as int;
    assert(sv.key_at(pos) == key);
}

/// The parts of a vector are its items, the slot table that its view and
/// `position_of` read, and its generations.
pub proof fn lemma_parts_meaning<T>(sv: &StableVec<T>)
    ensures
        sv.parts().0 == sv.items(),
        sv.parts().3.len() == sv.slots(),
        forall|i: int| 0 <= i < sv.slots() ==> #[trigger] sv.parts().3[i] == sv.generation_at(i),
        forall|k: GenerationKey| #[trigger] sv@.contains_key(k) <==> k.index < sv.slots()
            && sv.parts().3[k.index as int] == k.generation && sv.parts().1[k.index as int] < sv.items().len(),
        forall|k: GenerationKey| #[trigger] sv@.contains_key(k) ==> sv.position_of(k) == sv.parts().1[k.index as int]
            && sv@[k] == sv.items()[sv.position_of(k)],
{
}

/// Items at different positions have different keys, so the keys that
/// [`StableVec::keys`] lists never repeat.
pub proof fn lemma_keys_distinct<T>(sv: &StableVec<T>)
    requires
        sv.wf(),
    ensures
        forall|p: int, q: int| 0 <= p < sv.items().len() && 0 <= q < sv.items().len() && p != q
            ==> #[trigger] sv.key_at(p) != #[trigger] sv.key_at(q),
        Seq::new(sv.items().len(), |p: int| sv.key_at(p)).no_duplicates(),
{
    assert forall|p: int, q: int| 0 <= p < sv.items().len() && 0 <= q < sv.items().len() && p != q
        implies #[trigger] sv.key_at(p) != #[trigger] sv.key_at(q) by {
        assert(sv.id_map@[p] == sv.id_map@[p]);
        assert(sv.id_map@[q] == sv.id_map@[q]);
    }
}

/// A live key sits at a position inside the stored items.
pub proof fn lemma_position_in_items<T>(sv: &StableVec<T>, key: GenerationKey)
    requires
        sv@.contains_key(key),
    ensures
        0 <= sv.position_of(key) < sv.items().len(),
        sv.items()[sv.position_of(key)] == sv@[key],
{
}

impl<T> StableVec<T> {
    /// Create an empty `StableVec`.
    pub fn new() -> (sv: Self)
        ensures
            sv.wf(),
            sv@ == Map::<GenerationKey, T>::empty(),
            sv.items().len() == 0,
            sv.slots() == 0,
    {
        let sv = Self { data: Vec::new(), data_index: Vec::new(), id_map: Vec::new(), generations: Vec::new() };
        assert(sv@ =~= Map::<GenerationKey, T>::empty());
        sv
    }

    /// Creates an empty `StableVec` with room for `capacity` elements.
    pub fn with_capacity(capacity: usize) -> (sv: Self)
        ensures
            sv.wf(),
            sv@ == Map::<GenerationKey, T>::empty(),
            sv.items().len() == 0,
            sv.slots() == 0,
    {
        let sv = Self {
            data: Vec::with_capacity(capacity),
            data_index: Vec::with_capacity(capacity),
            id_map: Vec::with_capacity(capacity),
            generations: Vec::with_capacity(capacity),
        };
        assert(sv@ =~= Map::<GenerationKey, T>::empty());
        sv
    }

    /// Returns `true` if `key` corresponds to a currently live element.
    pub fn is_valid(&self, key: GenerationKey) -> (b: bool)
        requires
            self.wf(),
        ensures
            b == self@.contains_key(key),
    {
        key.index < self.generations.len() && self.generations[key.index] == key.generation
            && self.data_index[key.index] < self.data.len()
    }

    /// Same as [`Self::is_valid`].
    pub fn contains(&self, key: GenerationKey) -> (b: bool)
        requires
            self.wf(),
        ensures
            b == self@.contains_key(key),
    {
        self.is_valid(key)
    }

    /// Returns the number of live elements.
    pub fn len(&self) -> (n: usize)
        requires
            self.wf(),
        ensures
            n == self@.len(),
            n == self.items().len(),
    {
        proof { self.lemma_len(); }
        self.data.len()
    }

    /// Returns `true` if there are no elements.
    pub fn is_empty(&self) -> (b: bool)
        requires
            self.wf(),
        ensures
            b == (self@.len() == 0),
            b == (self.items().len() == 0),
    {
        proof { self.lemma_len(); }
        self.data.len() == 0
    }

    /// The number of live keys equals the number of stored items.
    proof fn lemma_len(&self)
        requires
            self.wf(),
        ensures
            self@.dom().finite(),
            self@.len() == self.data@.len(),
    {
        let keys = Seq::new(self.data@.len(), |p: int| self.key_at(p));
        assert forall|p: int, q: int| 0 <= p < q < keys.len() implies keys[p] != keys[q] by {
            assert(self.data_index@[self.id_map@[p] as int] == p);
            assert(self.data_index@[self.id_map@[q] as int] == q);
        }
        assert(keys.no_duplicates());
        assert forall|k: GenerationKey| self@.dom().contains(k) <==> keys.to_set().contains(k) by {
            if self@.dom().contains(k) {
                let p = self.data_index@[k.index as int] as int;
                assert(keys[p] == k);
            }
            if keys.to_set().contains(k) {
                let p = choose|p: int| 0 <= p < keys.len() && keys[p] == k;
                assert(self.data_index@[self.id_map@[p] as int] == p);
            }
        }
        assert(self@.dom() =~= keys.to_set());
        keys.unique_seq_to_set();
    }


    /// Inserts `item` and returns a stable key for it.
    ///
    /// A previously removed slot is reused (its generation was already bumped at
    /// removal); otherwise a new slot with generation 1 is allocated.
    pub fn insert(&mut self, item: T) -> (key: GenerationKey)
        requires
            old(self).wf(),
            old(self).slots() < usize::MAX,
        ensures
            final(self).wf(),
            !old(self)@.contains_key(key),
            final(self)@ == old(self)@.insert(key, item),
            final(self).items() == old(self).items().push(item),
            key.generation > 0,
            key.index < final(self).slots(),
            key.generation == final(self).generation_at(key.index as int),
            old(self).items().len() == old(self).slots() ==> key.index == old(self).slots() && key.generation == 1,
            old(self).generations_grow_to(&*final(self)),
            final(self).slots() == (if old(self).items().len() == old(self).slots() { old(self).slots() + 1 } else { old(self).slots() }),
    {
        let ghost old_view = self@;
        let position = self.data.len();
        if self.id_map.len() == position {
            // No free slot
            self.data.push(item);
            self.data_index.push(position);
            self.id_map.push(position);
            self.generations.push(1);
            let key = GenerationKey::new(position, 1);
            assert(!old_view.contains_key(key));
            assert(self@ =~= old_view.insert(key, item)) by {
                assert forall|k: GenerationKey| self.live(k) implies (k == key || old(self).live(k)) by {
                    if k != key && k.index == position {
                    }
                }
            }
            key
        } else {
            // Reuse a slot
            let reused = self.id_map[position];
            self.data.push(item);
            self.data_index.set(reused, position);
            let key = GenerationKey::new(reused, self.generations[reused]);
            assert(self.data_index@ =~= old(self).data_index@);
            assert(!old_view.contains_key(key));
            assert(self@ =~= old_view.insert(key, item)) by {
                assert forall|k: GenerationKey| self.live(k) implies (k == key || old(self).live(k)) by {
                    if k != key && self.data_index@[k.index as int] == position {
                        assert(self.id_map@[position as int] == k.index);
                    }
                }
            }
            key
        }
    }

    /// Removes the element identified by `key`, returning it if it was live.
    ///
    /// The key's slot gets its generation bumped, and the last item is moved into
    /// the freed position to keep the storage packed.
    pub fn remove(&mut self, key: GenerationKey) -> (r: Option<T>)
        requires
            old(self).wf(),
            old(self)@.contains_key(key) ==> key.generation < u64::MAX,
        ensures
            final(self).wf(),
            r == (if old(self)@.contains_key(key) { Some(old(self)@[key]) } else { None::<T> }),
            final(self)@ == old(self)@.remove(key),
            !final(self)@.contains_key(key),
            old(self)@.contains_key(key) ==> final(self).retired(key),
            old(self).generations_grow_to(&*final(self)),
            final(self).slots() == old(self).slots(),
            !old(self)@.contains_key(key) ==> final(self).items() == old(self).items(),
            old(self)@.contains_key(key) ==> final(self).items().len() == old(self).items().len() - 1,
            old(self)@.contains_key(key) ==> final(self).items() == old(self).items().update(
                old(self).position_of(key),
                old(self).items().last(),
            ).drop_last(),
    {
        if !self.is_valid(key) {
            proof { assert(self@.remove(key) =~= self@); }
            return None;
        }
        let ghost old_view = self@;
        let position = self.data_index[key.index];
        let last_position = self.data.len() - 1;
        // Invalidate the key immediately
        let g = self.generations[key.index];
        self.generations.set(key.index, g + 1);
        if position == last_position {
            let item = self.data.swap_remove(position);
            assert(self.data@ =~= old(self).data@.update(position as int, old(self).data@.last()).drop_last());
            assert(self@ =~= old_view.remove(key)) by {
                assert forall|k: GenerationKey| old_view.contains_key(k) && k != key implies self.live(k) by {
                    if k.index == key.index {
                    } else if self.data_index@[k.index as int] == position {
                        assert(old(self).id_map@[position as int] == k.index);
                    }
                }
            }
            return Some(item);
        }
        let last_index = self.id_map[last_position];
        // Move the last item into the freed position
        let item = self.data.swap_remove(position);
        self.id_map.set(position, last_index);
        self.id_map.set(last_position, key.index);
        // Update data_index after the move
        self.data_index.set(last_index, position);
        self.data_index.set(key.index, last_position);
        proof {
            let n = self.generations@.len() as int;
            assert(self.data@ =~= old(self).data@.update(position as int, old(self).data@.last()).drop_last());
            assert(last_index != key.index);
            assert forall|p: int| 0 <= p < n implies (#[trigger] self.id_map@[p] as int) < n
                && self.data_index@[self.id_map@[p] as int] == p by {
                if p != position && p != last_position {
                    assert(old(self).data_index@[old(self).id_map@[p] as int] == p);
                }
            }
            assert forall|i: int| 0 <= i < n implies (#[trigger] self.data_index@[i] as int) < n
                && self.id_map@[self.data_index@[i] as int] == i by {
                if i != last_index && i != key.index {
                    assert(old(self).id_map@[old(self).data_index@[i] as int] == i);
                }
            }
            assert forall|i: int| 0 <= i < n implies #[trigger] self.generations@[i] > 0 by {
                if i != key.index {
                    assert(old(self).generations@[i] > 0);
                }
            }
            assert(self@ =~= old_view.remove(key)) by {
                assert forall|k: GenerationKey| old_view.contains_key(k) && k != key implies self.live(k)
                    && self@[k] == old_view[k] by {
                    if k.index == key.index {
                    }
                }
                assert forall|k: GenerationKey| self.live(k) implies old_view.contains_key(k) && k != key by {
                    if k.index == last_index {
                        assert(old(self).data_index@[last_index as int] == last_position);
                    }
                }
            }
        }
        Some(item)
    }


    /// Keeps only the elements for which `predicate` returns `true`; each
    /// removed element is taken out by swap-and-pop.
    pub fn retain<F: Fn(&T) -> bool>(&mut self, predicate: F)
        requires
            old(self).wf(),
            forall|t: &T| predicate.requires((t,)),
            forall|k: GenerationKey| old(self)@.contains_key(k) ==> k.generation < u64::MAX,
        ensures
            final(self).wf(),
            old(self).generations_grow_to(&*final(self)),
            final(self)@.submap_of(old(self)@),
            forall|k: GenerationKey| #[trigger] final(self)@.contains_key(k) ==> predicate.ensures((&final(self)@[k],), true),
            forall|k: GenerationKey| old(self)@.contains_key(k) && !final(self)@.contains_key(k)
                ==> predicate.ensures((&old(self)@[k],), false) && final(self).retired(k),
    {
        let mut i: usize = 0;
        while i < self.data.len()
            invariant
                self.wf(),
                0 <= i <= self.data@.len(),
                forall|t: &T| predicate.requires((t,)),
                old(self).generations_grow_to(&*self),
                self@.submap_of(old(self)@),
                forall|k: GenerationKey| self@.contains_key(k) ==> k.generation < u64::MAX,
                forall|p: int| 0 <= p < i ==> predicate.ensures((&#[trigger] self.data@[p],), true),
                forall|k: GenerationKey| old(self)@.contains_key(k) && !self@.contains_key(k)
                    ==> predicate.ensures((&old(self)@[k],), false),
                forall|k: GenerationKey| old(self)@.contains_key(k) && !self@.contains_key(k)
                    ==> self.retired(k),
            decreases self.data@.len() - i,
        {
            if predicate(&self.data[i]) {
                i += 1;
            } else {
                let ghost before = *self;
                let ghost taken = self.data@[i as int];
                assert(predicate.ensures((&taken,), false));
                let index = self.id_map[i];
                let key = GenerationKey::new(index, self.generations[index]);
                proof { lemma_live_keys_are_positions(self, i as int); }
                self.remove(key);
                proof {
                    assert forall|p: int| 0 <= p < i implies predicate.ensures((&#[trigger] self.data@[p],), true) by {
                        assert(self.data@[p] == before.data@[p]) by {
                            assert(before.position_of(key) == i);
                        }
                    }
                    assert forall|k: GenerationKey| old(self)@.contains_key(k) && !self@.contains_key(k)
                        implies predicate.ensures((&old(self)@[k],), false) && self.retired(k) by {
                        if before@.contains_key(k) {
                            assert(k == key);
                            assert(old(self)@[k] == taken);
                        } else {
                            assert(before.retired(k));
                            assert(before.generation_at(k.index as int) <= self.generation_at(k.index as int));
                        }
                    }
                }
            }
        }
        proof {
            assert forall|k: GenerationKey| #[trigger] self@.contains_key(k) implies predicate.ensures((&self@[k],), true) by {
                lemma_live_key_has_position(self, k);
            }
        }
    }

    /// Returns a mutable reference to the element identified by `key`, or `None`.
    pub fn get_mut(&mut self, key: GenerationKey) -> (r: Option<&mut T>)
        requires
            old(self).wf(),
        ensures
            final(self).wf(),
            final(self).slots() == old(self).slots(),
            old(self).generations_grow_to(&*final(self)),
            match r {
                Some(e) => old(self)@.contains_key(key) && *e == old(self)@[key]
                    && final(self)@ == old(self)@.insert(key, *final(e)),
                None => !old(self)@.contains_key(key) && final(self)@ == old(self)@,
            },
    {
        if self.is_valid(key) {
            let pos = self.data_index[key.index];
            Some(&mut self.data[pos])
        } else {
            None
        }
    }


    /// Returns the number of elements the storage can hold without reallocating.
    pub fn capacity(&self) -> (c: usize)
        requires
            self.wf(),
        ensures
            c >= self.items().len(),
    {
        vec_capacity(&self.data)
    }

    /// Reserves capacity for at least `additional` more elements.
    pub fn reserve(&mut self, additional: usize)
        ensures
            final(self)@ == old(self)@,
            final(self).parts() == old(self).parts(),
            final(self).wf() == old(self).wf(),
    {
        self.data.reserve(additional);
        self.data_index.reserve(additional);
        self.id_map.reserve(additional);
        self.generations.reserve(additional);
    }

    /// Shrinks the capacity of all internal vectors as much as possible.
    pub fn shrink_to_fit(&mut self)
        ensures
            final(self)@ == old(self)@,
            final(self).parts() == old(self).parts(),
            final(self).wf() == old(self).wf(),
    {
        vec_shrink_to_fit(&mut self.data);
        vec_shrink_to_fit(&mut self.data_index);
        vec_shrink_to_fit(&mut self.id_map);
        vec_shrink_to_fit(&mut self.generations);
    }

    /// Iterates over all live elements in storage order (which may differ from
    /// insertion order after removals).
    pub fn iter(&self) -> (it: std::slice::Iter<'_, T>)
        ensures
            vstd::std_specs::slice::into_iter_elts(it) == self.items(),
    {
        let it = self.data.as_slice().iter();
        proof { broadcast use vstd::std_specs::slice::axiom_spec_slice_iter; }
        it
    }

    /// Mutable iterator over all live elements in storage order. Only the
    /// values can change through it: the keys, the slot table and the
    /// number of items stay as they are.
    pub fn iter_mut(&mut self) -> (it: std::slice::IterMut<'_, T>)
        ensures
            old(self).wf() ==> final(self).wf(),
            final(self).slots() == old(self).slots(),
            forall|i: int| 0 <= i < old(self).slots() ==> #[trigger] final(self).generation_at(i) == old(self).generation_at(i),
            final(self).items().len() == old(self).items().len(),
            forall|p: int| 0 <= p < old(self).items().len() ==> #[trigger] final(self).key_at(p) == old(self).key_at(p),
            final(self)@.dom() == old(self)@.dom(),
    {
        slice_iter_mut(self.data.as_mut_slice())
    }

    /// The keys of all live elements, in storage order.
    pub fn keys(&self) -> (it: std::vec::IntoIter<GenerationKey>)
        requires
            self.wf(),
        ensures
            exists|ks: Vec<GenerationKey>| #![auto]
                it == vstd::std_specs::vec::spec_into_iter(ks)
                && ks@ == Seq::new(self.items().len(), |p: int| self.key_at(p))
                && forall|p: int| 0 <= p < ks@.len() ==> self@.contains_key(ks@[p]),
    {
        let keys = self.key_list();
        keys.into_iter()
    }

    /// The keys of all live elements, in storage order, as a vector.
    fn key_list(&self) -> (ks: Vec<GenerationKey>)
        requires
            self.wf(),
        ensures
            ks@ == Seq::new(self.items().len(), |p: int| self.key_at(p)),
            forall|p: int| 0 <= p < ks@.len() ==> self@.contains_key(ks@[p]),
    {
        let mut ks: Vec<GenerationKey> = Vec::new();
        let mut pos: usize = 0;
        while pos < self.data.len()
            invariant
                self.wf(),
                pos <= self.data@.len(),
                ks@ == Seq::new(pos as nat, |p: int| self.key_at(p)),
            decreases self.data@.len() - pos,
        {
            let index = self.id_map[pos];
            ks.push(GenerationKey::new(index, self.generations[index]));
            pos += 1;
            proof { assert(ks@ =~= Seq::new(pos as nat, |p: int| self.key_at(p))); }
        }
        proof {
            assert forall|p: int| 0 <= p < ks@.len() implies self@.contains_key(ks@[p]) by {
                lemma_live_keys_are_positions(self, p);
            }
        }
        ks
    }

    /// Re-indexes all live elements to consecutive indices starting at 0.
    ///
    /// All existing keys are invalidated. Returns `map[old_index] = Some(new_key)`
    /// for each previously live element and `None` for indices that were dead.
    /// Afterwards the slot table holds exactly the live elements.
    pub fn compact(&mut self) -> (remap: Vec<Option<GenerationKey>>)
        requires
            old(self).wf(),
            forall|i: int| 0 <= i < old(self).items().len() ==> old(self).generation_at(i) < u64::MAX,
        ensures
            final(self).wf(),
            final(self).items() == old(self).items(),
            final(self).slots() == old(self).items().len(),
            remap@.len() == old(self).slots(),
            forall|p: int| 0 <= p < old(self).items().len() ==> {
                let k = #[trigger] old(self).key_at(p);
                &&& remap@[k.index as int] == Some(GenerationKey { index: p as usize, generation: (old(self).generation_at(p) + 1) as u64 })
                &&& final(self)@.contains_key(GenerationKey { index: p as usize, generation: (old(self).generation_at(p) + 1) as u64 })
                &&& final(self)@[GenerationKey { index: p as usize, generation: (old(self).generation_at(p) + 1) as u64 }] == old(self)@[k]
            },
            forall|i: int| 0 <= i < remap@.len() ==> (#[trigger] remap@[i] is Some <==> old(self)@.contains_key(
                GenerationKey { index: i as usize, generation: old(self).generation_at(i) })),
            forall|k: GenerationKey| #[trigger] final(self)@.contains_key(k) ==> k.index < old(self).items().len()
                && k.generation == old(self).generation_at(k.index as int) + 1,
    {
        let live_count = self.data.len();
        let mut new_data_index: Vec<usize> = Vec::new();
        let mut new_id_map: Vec<usize> = Vec::new();
        let mut new_generations: Vec<Generation> = Vec::new();
        let mut remapping: Vec<Option<GenerationKey>> = Vec::new();
        let mut j: usize = 0;
        while j < self.data_index.len()
            invariant
                self == old(self),
                j <= self.data_index@.len(),
                remapping@.len() == j,
                forall|i: int| 0 <= i < j ==> remapping@[i] is None,
            decreases self.data_index@.len() - j,
        {
            remapping.push(None);
            j += 1;
        }
        let mut new_pos: usize = 0;
        while new_pos < live_count
            invariant
                self == old(self),
                self.wf(),
                live_count == self.data@.len(),
                forall|i: int| 0 <= i < live_count ==> self.generation_at(i) < u64::MAX,
                new_pos <= live_count,
                new_data_index@.len() == new_pos,
                new_id_map@.len() == new_pos,
                new_generations@.len() == new_pos,
                remapping@.len() == self.data_index@.len(),
                forall|p: int| 0 <= p < new_pos ==> #[trigger] new_data_index@[p] == p,
                forall|p: int| 0 <= p < new_pos ==> #[trigger] new_id_map@[p] == p,
                forall|p: int| 0 <= p < new_pos ==> #[trigger] new_generations@[p] == self.generations@[p] + 1,
                forall|i: int| 0 <= i < remapping@.len() ==> (#[trigger] remapping@[i] is Some <==> 
                    (self.data_index@[i] < new_pos)),
                forall|p: int| 0 <= p < new_pos ==> #[trigger] remapping@[self.id_map@[p] as int] == Some(GenerationKey { index: p as usize, generation: (self.generations@[p] + 1) as u64 }),
            decreases live_count - new_pos,
        {
            let old_key_idx = self.id_map[new_pos];
            assert(self.generation_at(new_pos as int) < u64::MAX);
            // The new generation is strictly greater than any generation that
            // existed at this new index.
            let gen = self.generations[new_pos] + 1;
            let new_key = GenerationKey::new(new_pos, gen);
            new_data_index.push(new_pos);
            new_id_map.push(new_pos);
            new_generations.push(gen);
            remapping.set(old_key_idx, Some(new_key));
            new_pos += 1;
            proof {
                assert forall|i: int| 0 <= i < remapping@.len() implies (#[trigger] remapping@[i] is Some <==> 
                    (self.data_index@[i] < new_pos)) by {
                    if i == old_key_idx {
                    } else {
                        assert(self.id_map@[self.data_index@[i] as int] == i);
                    }
                }
                assert forall|p: int| 0 <= p < new_pos implies #[trigger] remapping@[self.id_map@[p] as int] == Some(GenerationKey { index: p as usize, generation: (self.generations@[p] + 1) as u64 }) by {
                    if p < new_pos - 1 {
                        assert(self.id_map@[p] != old_key_idx) by {
                            assert(self.data_index@[self.id_map@[p] as int] == p);
                        }
                    }
                }
            }
        }
        let ghost before = *self;
        self.data_index = new_data_index;
        self.id_map = new_id_map;
        self.generations = new_generations;
        proof {
            let n = live_count as int;
            assert(self.data_index@.len() == n && self.id_map@.len() == n && self.generations@.len() == n);
            assert forall|p: int| 0 <= p < n implies (#[trigger] self.id_map@[p] as int) < n
                && self.data_index@[self.id_map@[p] as int] == p by {
                assert(self.id_map@[p] == p);
            }
            assert forall|i: int| 0 <= i < n implies (#[trigger] self.data_index@[i] as int) < n
                && self.id_map@[self.data_index@[i] as int] == i by {
                assert(self.data_index@[i] == i);
            }
            assert forall|i: int| 0 <= i < n implies #[trigger] self.generations@[i] > 0 by {
                assert(self.generations@[i] == before.generations@[i] + 1);
            }
            assert(self.wf());
            assert forall|i: int| 0 <= i < remapping@.len() implies (#[trigger] remapping@[i] is Some <==> before.data_index@[i] < before.data@.len()) by {}
            assert forall|p: int| 0 <= p < before.data@.len() implies {
                let k = #[trigger] before.key_at(p);
                &&& remapping@[k.index as int] == Some(GenerationKey { index: p as usize, generation: (before.generation_at(p) + 1) as u64 })
                &&& self@.contains_key(GenerationKey { index: p as usize, generation: (before.generation_at(p) + 1) as u64 })
                &&& self@[GenerationKey { index: p as usize, generation: (before.generation_at(p) + 1) as u64 }] == before@[k]
            } by {
                lemma_live_keys_are_positions(&before, p);
                let nk = GenerationKey { index: p as usize, generation: (before.generation_at(p) + 1) as u64 };
                assert(self.data_index@[p] == p);
                assert(self.generations@[p] == before.generations@[p] + 1);
                assert(self.live(nk));
            }
        }
        remapping
    }

    /// Removes all elements, invalidating every existing key: every slot is
    /// freed and its generation bumped (a slot already at the largest
    /// generation keeps it), so a key issued before never reaches an element
    /// inserted after.
    pub fn clear(&mut self)
        requires
            old(self).wf(),
        ensures
            final(self).wf(),
            final(self)@ == Map::<GenerationKey, T>::empty(),
            final(self).items().len() == 0,
            final(self).slots() == old(self).slots(),
            old(self).generations_grow_to(&*final(self)),
            forall|i: int| 0 <= i < old(self).slots() && old(self).generation_at(i) < u64::MAX
                ==> #[trigger] final(self).generation_at(i) == old(self).generation_at(i) + 1,
            forall|k: GenerationKey| #[trigger] old(self)@.contains_key(k) && k.generation < u64::MAX ==> final(self).retired(k),
    {
        self.data.clear();
        let n = self.generations.len();
        let mut i: usize = 0;
        while i < n
            invariant
                n == self.generations@.len(),
                n == old(self).generations@.len(),
                i <= n,
                self.data@.len() == 0,
                self.data_index@ == old(self).data_index@,
                self.id_map@ == old(self).id_map@,
                parts_wf(old(self).data@, old(self).data_index@, old(self).id_map@, old(self).generations@),
                forall|j: int| 0 <= j < i ==> #[trigger] self.generations@[j] == (if old(self).generations@[j] < u64::MAX {
                    (old(self).generations@[j] + 1) as u64 } else { old(self).generations@[j] }),
                forall|j: int| i <= j < n ==> #[trigger] self.generations@[j] == old(self).generations@[j],
            decreases n - i,
        {
            let g = self.generations[i];
            if g < u64::MAX {
                self.generations.set(i, g + 1);
            }
            i += 1;
        }
        proof {
            assert(self@ =~= Map::<GenerationKey, T>::empty());
            assert(self.wf());
        }
    }

    /// Returns a reference to the element identified by `key`, or `None`.
    pub fn get(&self, key: GenerationKey) -> (r: Option<&T>)
        requires
            self.wf(),
        ensures
            r == (if self@.contains_key(key) { Some(&self@[key]) } else { None::<&T> }),
    {
        if self.is_valid(key) {
            Some(&self.data[self.data_index[key.index]])
        } else {
            None
        }
    }
}



impl<T> Default for StableVec<T> {
    fn default() -> (sv: Self)
        ensures
            sv.wf(),
            sv@ == Map::<GenerationKey, T>::empty(),
            sv.slots() == 0,
    {
        Self::new()
    }
}

impl<T> std::ops::Index<GenerationKey> for StableVec<T> {
    type Output = T;

    fn index(&self, key: GenerationKey) -> (r: &T)
        ensures
            r == self@[key],
    {
        let pos = self.data_index[key.index];
        &self.data[pos]
    }
}

impl<T> vstd::std_specs::core::IndexSpecImpl<GenerationKey> for StableVec<T> {
    open spec fn index_req(&self, key: &GenerationKey) -> bool {
        self.wf() && self@.contains_key(*key)
    }
}

impl<T> From<StableVec<T>> for Vec<T> {
    fn from(sv: StableVec<T>) -> (v: Vec<T>)
        ensures
            v@ == sv.items(),
    {
        sv.data
    }
}

impl<T> vstd::std_specs::convert::FromSpecImpl<StableVec<T>> for Vec<T> {
    open spec fn obeys_from_spec() -> bool {
        true
    }

    closed spec fn from_spec(sv: StableVec<T>) -> Vec<T> {
        sv.data
    }
}

/// Why a set of raw parts does not form a valid [`StableVec`].
#[derive(Debug, PartialEq, Eq, Structural)]
pub enum StableVecError {
    /// A live element's generation is 0 (which means "never existed").
    ZeroGeneration { index: usize, position: usize },
    /// `data_index[id_map[pos]] != pos` for some live position.
    DataIndexMismatch { position: usize, index: usize, expected: usize, actual: usize },
    /// A dead key index with a non-zero generation still points into the live range.
    UndeadElement { dead_index: usize, data_index_value: usize, data_len: usize },
    /// The metadata vectors `data_index`, `id_map` and `generations` differ in length.
    LengthMismatch { data_index_len: usize, id_map_len: usize, generations_len: usize },
    /// An `id_map` entry refers to an index out of bounds for `generations`.
    OutOfBounds { position: usize, id_map_value: usize, generations_len: usize },
}

impl StableVecError {
    /// The human-readable text of the error.
    pub open spec fn message_text(&self) -> Seq<char> {
        match *self {
            StableVecError::ZeroGeneration { index, position } =>
                "live element at data position "@ + decimal(position as nat) + " references key index "@
                    + decimal(index as nat) + ", which has generation 0"@,
            StableVecError::DataIndexMismatch { position, index, expected, actual } =>
                "data position "@ + decimal(position as nat) + " (key index "@ + decimal(index as nat)
                    + ") has data_index = "@ + decimal(actual as nat) + " but expected "@ + decimal(expected as nat),
            StableVecError::UndeadElement { dead_index, data_index_value, data_len } =>
                "dead key index "@ + decimal(dead_index as nat) + " points to live element at position "@
                    + decimal(data_index_value as nat) + " (data length is "@ + decimal(data_len as nat) + ")"@,
            StableVecError::LengthMismatch { data_index_len, id_map_len, generations_len } =>
                "metadata vector length mismatch: data_index="@ + decimal(data_index_len as nat) + ", id_map="@
                    + decimal(id_map_len as nat) + ", generations="@ + decimal(generations_len as nat),
            StableVecError::OutOfBounds { position, id_map_value, generations_len } =>
                "id_map["@ + decimal(position as nat) + "] = "@ + decimal(id_map_value as nat)
                    + " is out of bounds (generations length = "@ + decimal(generations_len as nat) + ")"@,
        }
    }

    /// Returns the human-readable text of the error.
    pub fn message(&self) -> (s: String)
        ensures
            s@ == self.message_text(),
    {
        match *self {
            StableVecError::ZeroGeneration { index, position } => {
                String::from_str("live element at data position ").concat(decimal_string(position).as_str())
                    .concat(" references key index ").concat(decimal_string(index).as_str())
                    .concat(", which has generation 0")
            },
            StableVecError::DataIndexMismatch { position, index, expected, actual } => {
                String::from_str("data position ").concat(decimal_string(position).as_str())
                    .concat(" (key index ").concat(decimal_string(index).as_str())
                    .concat(") has data_index = ").concat(decimal_string(actual).as_str())
                    .concat(" but expected ").concat(decimal_string(expected).as_str())
            },
            StableVecError::UndeadElement { dead_index, data_index_value, data_len } => {
                String::from_str("dead key index ").concat(decimal_string(dead_index).as_str())
                    .concat(" points to live element at position ").concat(decimal_string(data_index_value).as_str())
                    .concat(" (data length is ").concat(decimal_string(data_len).as_str()).concat(")")
            },
            StableVecError::LengthMismatch { data_index_len, id_map_len, generations_len } => {
                String::from_str("metadata vector length mismatch: data_index=").concat(decimal_string(data_index_len).as_str())
                    .concat(", id_map=").concat(decimal_string(id_map_len).as_str())
                    .concat(", generations=").concat(decimal_string(generations_len).as_str())
            },
            StableVecError::OutOfBounds { position, id_map_value, generations_len } => {
                String::from_str("id_map[").concat(decimal_string(position).as_str())
                    .concat("] = ").concat(decimal_string(id_map_value).as_str())
                    .concat(" is out of bounds (generations length = ").concat(decimal_string(generations_len).as_str())
                    .concat(")")
            },
        }
    }
}

/// The raw parts of a [`StableVec`], not yet validated.
pub struct StableVecUnchecked<T> {
    data: Vec<T>,
    data_index: Vec<usize>,
    id_map: Vec<usize>,
    generations: Vec<Generation>,
}

/// The metadata vectors all have the same length.
pub open spec fn lengths_match(data_index: Seq<usize>, id_map: Seq<usize>, generations: Seq<Generation>) -> bool {
    data_index.len() == generations.len() && id_map.len() == generations.len()
}

/// The live position `pos` is consistent: its key index is in bounds, has a
/// non-zero generation, and points back at `pos`.
pub open spec fn position_consistent(
    data_index: Seq<usize>,
    id_map: Seq<usize>,
    generations: Seq<Generation>,
    pos: int,
) -> bool {
    let idx = id_map[pos] as int;
    &&& idx < generations.len()
    &&& generations[idx] != 0
    &&& data_index[idx] == pos
}

/// Key index `i` is used by some live position.
pub open spec fn index_referenced(id_map: Seq<usize>, data_len: nat, i: int) -> bool {
    exists|p: int| 0 <= p < data_len && id_map[p] == i
}

/// Key index `i` is dead (unreferenced), has a non-zero generation, and still
/// points into the live range.
pub open spec fn index_undead(
    data_index: Seq<usize>,
    id_map: Seq<usize>,
    generations: Seq<Generation>,
    data_len: nat,
    i: int,
) -> bool {
    &&& !index_referenced(id_map, data_len, i)
    &&& generations[i] > 0
    &&& data_index[i] < data_len
}

impl<T> StableVecUnchecked<T> {
    /// The four parts, as `(items, data_index, id_map, generations)`.
    pub closed spec fn parts(&self) -> (Seq<T>, Seq<usize>, Seq<usize>, Seq<Generation>) {
        (self.data@, self.data_index@, self.id_map@, self.generations@)
    }

    /// Gathers raw parts.
    pub fn from_iters(
        data: Vec<T>,
        data_index: Vec<usize>,
        id_map: Vec<usize>,
        generations: Vec<Generation>,
    ) -> (u: Self)
        ensures
            u.parts() == (data@, data_index@, id_map@, generations@),
    {
        Self { data, data_index, id_map, generations }
    }

    /// Validates the parts and returns a [`StableVec`] made of them, or the first
    /// inconsistency found.
    pub fn check(self) -> (r: Result<StableVec<T>, StableVecError>)
        ensures
            ({
                let (d, di, im, g) = self.parts();
                match r {
                    Ok(sv) => {
                        &&& lengths_match(di, im, g)
                        &&& d.len() <= g.len()
                        &&& forall|pos: int| 0 <= pos < d.len() ==> position_consistent(di, im, g, pos)
                        &&& forall|i: int| 0 <= i < g.len() ==> !index_undead(di, im, g, d.len(), i)
                        &&& sv.parts() == self.parts()
                    },
                    Err(StableVecError::LengthMismatch { data_index_len, id_map_len, generations_len }) => {
                        &&& !lengths_match(di, im, g) || d.len() > g.len()
                        &&& data_index_len == di.len() && id_map_len == im.len() && generations_len == g.len()
                    },
                    Err(StableVecError::OutOfBounds { position, id_map_value, generations_len }) => {
                        &&& lengths_match(di, im, g)
                        &&& position < d.len()
                        &&& forall|q: int| 0 <= q < position ==> position_consistent(di, im, g, q)
                        &&& im[position as int] >= g.len()
                        &&& id_map_value == im[position as int] && generations_len == g.len()
                    },
                    Err(StableVecError::ZeroGeneration { index, position }) => {
                        &&& lengths_match(di, im, g)
                        &&& position < d.len()
                        &&& forall|q: int| 0 <= q < position ==> position_consistent(di, im, g, q)
                        &&& index == im[position as int] && index < g.len() && g[index as int] == 0
                    },
                    Err(StableVecError::DataIndexMismatch { position, index, expected, actual }) => {
                        &&& lengths_match(di, im, g)
                        &&& position < d.len()
                        &&& forall|q: int| 0 <= q < position ==> position_consistent(di, im, g, q)
                        &&& index == im[position as int] && index < g.len() && g[index as int] != 0
                        &&& expected == position && actual == di[index as int] && actual != position
                    },
                    Err(StableVecError::UndeadElement { dead_index, data_index_value, data_len }) => {
                        &&& lengths_match(di, im, g)
                        &&& forall|pos: int| 0 <= pos < d.len() ==> position_consistent(di, im, g, pos)
                        &&& dead_index < g.len()
                        &&& forall|j: int| 0 <= j < dead_index ==> !index_undead(di, im, g, d.len(), j)
                        &&& index_undead(di, im, g, d.len(), dead_index as int)
                        &&& data_index_value == di[dead_index as int] && data_len == d.len()
                    },
                }
            }),
    {
        let data_len = self.data.len();
        let gen_len = self.generations.len();
        if self.data_index.len() != gen_len || self.id_map.len() != gen_len || data_len > gen_len {
            return Err(StableVecError::LengthMismatch {
                data_index_len: self.data_index.len(),
                id_map_len: self.id_map.len(),
                generations_len: gen_len,
            });
        }
        let ghost (d, di, im, g) = self.parts();
        let mut pos: usize = 0;
        while pos < data_len
            invariant
                (d, di, im, g) == self.parts(),
                data_len == d.len(),
                gen_len == g.len(),
                lengths_match(di, im, g),
                data_len <= gen_len,
                pos <= data_len,
                forall|q: int| 0 <= q < pos ==> position_consistent(di, im, g, q),
            decreases data_len - pos,
        {
            let idx = self.id_map[pos];
            if idx >= gen_len {
                return Err(StableVecError::OutOfBounds { position: pos, id_map_value: idx, generations_len: gen_len });
            }
            if self.generations[idx] == 0 {
                return Err(StableVecError::ZeroGeneration { index: idx, position: pos });
            }
            if self.data_index[idx] != pos {
                return Err(StableVecError::DataIndexMismatch {
                    position: pos,
                    index: idx,
                    expected: pos,
                    actual: self.data_index[idx],
                });
            }
            pos += 1;
        }
        let mut live: Vec<bool> = Vec::new();
        let mut i: usize = 0;
        while i < gen_len
            invariant
                i <= gen_len,
                live@.len() == i,
                forall|j: int| 0 <= j < i ==> !live@[j],
            decreases gen_len - i,
        {
            live.push(false);
            i += 1;
        }
        let mut p: usize = 0;
        while p < data_len
            invariant
                (d, di, im, g) == self.parts(),
                data_len == d.len(),
                gen_len == g.len(),
                lengths_match(di, im, g),
                data_len <= gen_len,
                p <= data_len,
                live@.len() == gen_len,
                forall|q: int| 0 <= q < data_len ==> position_consistent(di, im, g, q),
                forall|j: int| 0 <= j < gen_len ==> (live@[j] <==> exists|q: int| 0 <= q < p && im[q] == j),
            decreases data_len - p,
        {
            let idx = self.id_map[p];
            assert(position_consistent(di, im, g, p as int));
            live.set(idx, true);
            p += 1;
            proof {
                assert forall|j: int| 0 <= j < gen_len implies (live@[j] <==> exists|q: int| 0 <= q < p && im[q] == j) by {
                    if j == idx as int {
                        assert(im[p - 1] == j);
                    }
                }
            }
        }
        let mut k: usize = 0;
        while k < gen_len
            invariant
                (d, di, im, g) == self.parts(),
                data_len == d.len(),
                gen_len == g.len(),
                lengths_match(di, im, g),
                k <= gen_len,
                live@.len() == gen_len,
                forall|q: int| 0 <= q < data_len ==> position_consistent(di, im, g, q),
                forall|j: int| 0 <= j < gen_len ==> (live@[j] <==> index_referenced(im, d.len(), j)),
                forall|j: int| 0 <= j < k ==> !index_undead(di, im, g, d.len(), j),
            decreases gen_len - k,
        {
            if !live[k] && self.generations[k] > 0 && self.data_index[k] < data_len {
                return Err(StableVecError::UndeadElement {
                    dead_index: k,
                    data_index_value: self.data_index[k],
                    data_len,
                });
            }
            k += 1;
        }
        Ok(StableVec {
            data: self.data,
            data_index: self.data_index,
            id_map: self.id_map,
            generations: self.generations,
        })
    }
}

/// Parts that pass [`StableVecUnchecked::check`] and whose dead slots are also
/// consistent (every slot index maps back and forth, every generation is
/// non-zero) form a well-formed [`StableVec`].
pub proof fn lemma_checked_parts_wf<T>(sv: &StableVec<T>)
    requires
        parts_wf(sv.parts().0, sv.parts().1, sv.parts().2, sv.parts().3),
    ensures
        sv.wf(),
{
}

/// `Vec::capacity`: the number of elements the vector can hold without
/// reallocating, which std documents to be at least its length.
#[verifier::external_body]
fn vec_capacity<T>(v: &Vec<T>) -> (c: usize)
    ensures
        c >= v@.len(),
{
    v.capacity()
}

/// `std::slice::IterMut`, the mutable iterator over a slice.
#[verifier::external_type_specification]
#[verifier::external_body]
#[verifier::reject_recursive_types(T)]
pub struct ExSliceIterMut<'a, T: 'a>(std::slice::IterMut<'a, T>);

/// `<[T]>::iter_mut`: a mutable iterator over the slice's elements, in
/// order. What the iterator yields is not stated here; what is stated is
/// that a slice keeps its length, so writes through the iterator change
/// elements only.
#[verifier::external_body]
fn slice_iter_mut<T>(s: &mut [T]) -> (it: std::slice::IterMut<'_, T>)
    ensures
        final(s)@.len() == old(s)@.len(),
{
    s.iter_mut()
}

/// `Vec::shrink_to_fit`: drops spare capacity; std documents that the
/// contents are left unchanged.
#[verifier::external_body]
fn vec_shrink_to_fit<T>(v: &mut Vec<T>)
    ensures
        final(v)@ == old(v)@,
{
    v.shrink_to_fit()
}

} // verus!
