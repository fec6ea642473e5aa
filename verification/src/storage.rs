//! Sparse-set storage primitives: a growable array of optional slots
//! (`SparseArray`) and a dense array with a sparse index-to-position lookup
//! (`SparseSet`), giving O(1) insert, remove and lookup keyed by a small
//! unsigned index.

use vstd::prelude::*;

verus! {

/// A growable array of optional slots, indexed directly by a small unsigned
/// index. It grows on demand and never shrinks; absent slots are holes.
///
/// Its view is the partial map from an index to the value stored in its slot.
pub struct SparseArray<V> {
    values: Vec<Option<V>>,
}

impl<V> View for SparseArray<V> {
    type V = Map<int, V>;

    closed spec fn view(&self) -> Map<int, V> {
        Map::new(
            |i: int| 0 <= i < self.values@.len() && self.values@[i] is Some,
            |i: int| self.values@[i].unwrap(),
        )
    }
}

impl<V> SparseArray<V> {
    /// Creates an empty sparse array.
    pub fn new() -> (s: Self)
        ensures
            s@ == Map::<int, V>::empty(),
    {
        let s = SparseArray { values: Vec::new() };
        proof {
            assert(s@ =~= Map::<int, V>::empty());
        }
        s
    }

    /// Presence check: `index` holds a value if and only if its slot exists
    /// and is filled.
    pub fn contains(&self, index: usize) -> (r: bool)
        ensures
            r == self@.dom().contains(index as int),
    {
        index < self.values.len() && self.values[index].is_some()
    }

    /// Returns the value stored at `index`, or `None` when the index is
    /// absent; an index past the end of the backing vector is absent.
    pub fn get(&self, index: usize) -> (r: Option<&V>)
        ensures
            match r {
                Some(v) => self@.dom().contains(index as int) && *v == self@[index as int],
                None => !self@.dom().contains(index as int),
            },
    {
        if index < self.values.len() {
            self.values[index].as_ref()
        } else {
            None
        }
    }

    /// Stores `value` at `index`, growing the backing vector with empty
    /// slots when the index lies beyond its current length.
    pub fn insert(&mut self, index: usize, value: V)
        ensures
            final(self)@ == old(self)@.insert(index as int, value),
    {
        while self.values.len() <= index
            invariant
                self.values@.len() >= old(self).values@.len(),
                forall|j: int|
                    0 <= j < self.values@.len() ==> self.values@[j] == (if j
                        < old(self).values@.len() {
                        old(self).values@[j]
                    } else {
                        None::<V>
                    }),
            decreases index + 1 - self.values@.len(),
        {
            self.values.push(None);
        }
        let slot = &mut self.values[index];
        *slot = Some(value);
        proof {
            assert(final(self)@ =~= old(self)@.insert(index as int, value));
        }
    }

    /// Takes the value stored at `index` out of the array, leaving the slot
    /// empty; returns `None` when the index was absent.
    pub fn remove(&mut self, index: usize) -> (r: Option<V>)
        ensures
            final(self)@ == old(self)@.remove(index as int),
            r == (if old(self)@.dom().contains(index as int) {
                Some(old(self)@[index as int])
            } else {
                None::<V>
            }),
    {
        if index < self.values.len() {
            let slot = &mut self.values[index];
            let r = slot.take();
            proof {
                assert(final(self)@ =~= old(self)@.remove(index as int));
            }
            r
        } else {
            proof {
                assert(final(self)@ =~= old(self)@.remove(index as int));
            }
            None
        }
    }

    /// Empties the array, dropping every stored value and every slot.
    pub fn clear(&mut self)
        ensures
            final(self)@ == Map::<int, V>::empty(),
    {
        self.values.clear();
        proof {
            assert(final(self)@ =~= Map::<int, V>::empty());
        }
    }
}

/// A dense array of values plus a parallel array of the indices they belong
/// to, plus a sparse index-to-position lookup. Insert, remove and lookup by
/// index are O(1); removal swaps the removed slot with the last dense entry
/// to keep the dense array packed.
///
/// Its view is the partial map from a live index to its value.
pub struct SparseSet<V> {
    dense: Vec<V>,
    indices: Vec<usize>,
    sparse: SparseArray<usize>,
}

impl<V> View for SparseSet<V> {
    type V = Map<int, V>;

    closed spec fn view(&self) -> Map<int, V> {
        Map::new(
            |i: int| self.sparse@.dom().contains(i),
            |i: int| self.dense@[self.sparse@[i] as int],
        )
    }
}

impl<V> SparseSet<V> {
    /// The mutual consistency of the three arrays: dense and index arrays
    /// run in parallel, the sparse lookup maps each live index to its dense
    /// position, and each dense position records the index it serves.
    pub closed spec fn wf(&self) -> bool {
        &&& self.dense@.len() == self.indices@.len()
        &&& (forall|p: int|
            0 <= p < self.indices@.len() ==> self.sparse@.dom().contains(
                #[trigger] self.indices@[p] as int,
            ) && self.sparse@[self.indices@[p] as int] as int == p)
        &&& (forall|i: int|
            #[trigger] self.sparse@.dom().contains(i) ==> 0 <= i && (self.sparse@[i] as int)
                < self.indices@.len() && self.indices@[self.sparse@[i] as int] as int == i)
    }

    /// The indices currently live, in insertion order (oldest first); a
    /// removal moves the youngest index into the removed slot.
    pub closed spec fn index_seq(&self) -> Seq<usize> {
        self.indices@
    }

    /// Creates an empty sparse set.
    pub fn new() -> (s: Self)
        ensures
            s.wf(),
            s@ == Map::<int, V>::empty(),
            s.index_seq() == Seq::<usize>::empty(),
    {
        let s = SparseSet { dense: Vec::new(), indices: Vec::new(), sparse: SparseArray::new() };
        proof {
            assert(s@ =~= Map::<int, V>::empty());
        }
        s
    }

    /// The number of values currently stored.
    pub fn len(&self) -> (r: usize)
        requires
            self.wf(),
        ensures
            r == self.index_seq().len(),
            r == self@.dom().len(),
    {
        proof {
            self.lemma_dom_len();
        }
        self.dense.len()
    }

    /// O(1) presence check through the sparse lookup alone.
    pub fn contains(&self, index: usize) -> (r: bool)
        requires
            self.wf(),
        ensures
            r == self@.dom().contains(index as int),
    {
        self.sparse.contains(index)
    }

    /// Returns the value stored for `index`, or `None` when absent.
    pub fn get(&self, index: usize) -> (r: Option<&V>)
        requires
            self.wf(),
        ensures
            match r {
                Some(v) => self@.dom().contains(index as int) && *v == self@[index as int],
                None => !self@.dom().contains(index as int),
            },
    {
        match self.sparse.get(index) {
            Some(p) => Some(&self.dense[*p]),
            None => None,
        }
    }

    /// If `index` is already present, replaces its value in place; otherwise
    /// appends the value to the dense array and records its position.
    pub fn insert(&mut self, index: usize, value: V)
        requires
            old(self).wf(),
        ensures
            final(self).wf(),
            final(self)@ == old(self)@.insert(index as int, value),
            final(self).index_seq() == (if old(self)@.dom().contains(index as int) {
                old(self).index_seq()
            } else {
                old(self).index_seq().push(index)
            }),
    {
        let existing = match self.sparse.get(index) {
            Some(p) => Some(*p),
            None => None,
        };
        match existing {
            Some(p) => {
                let slot = &mut self.dense[p];
                *slot = value;
                proof {
                    assert(final(self)@ =~= old(self)@.insert(index as int, value));
                }
            },
            None => {
                let p = self.dense.len();
                self.sparse.insert(index, p);
                self.dense.push(value);
                self.indices.push(index);
                proof {
                    assert(final(self)@ =~= old(self)@.insert(index as int, value));
                }
            },
        }
    }

    /// Takes the value stored for `index` out of the set, or returns `None`
    /// when absent. The last dense entry is swapped into the freed slot and
    /// its sparse entry is patched, so the dense array stays packed.
    pub fn remove(&mut self, index: usize) -> (r: Option<V>)
        requires
            old(self).wf(),
        ensures
            final(self).wf(),
            final(self)@ == old(self)@.remove(index as int),
            r == (if old(self)@.dom().contains(index as int) {
                Some(old(self)@[index as int])
            } else {
                None::<V>
            }),
    {
        match self.sparse.remove(index) {
            None => {
                proof {
                    assert(final(self)@ =~= old(self)@.remove(index as int));
                }
                None
            },
            Some(p) => {
                let v = self.dense.swap_remove(p);
                let _ = self.indices.swap_remove(p);
                if p < self.indices.len() {
                    let moved = self.indices[p];
                    self.sparse.insert(moved, p);
                }
                proof {
                    assert(final(self)@ =~= old(self)@.remove(index as int));
                }
                Some(v)
            },
        }
    }

    /// Borrows the value stored for `index` for writing, or returns `None`
    /// when absent. Whatever the caller writes through the borrow, the set
    /// stays well formed and only that index's value changes.
    pub fn get_mut(&mut self, index: usize) -> (r: Option<&mut V>)
        requires
            old(self).wf(),
        ensures
            r is Some <==> old(self)@.dom().contains(index as int),
            r is None ==> *final(self) == *old(self),
            r matches Some(m) ==> *m == old(self)@[index as int] && final(self).wf()
                && final(self)@ == old(self)@.insert(index as int, *final(m))
                && final(self).index_seq() == old(self).index_seq(),
    {
        let existing = match self.sparse.get(index) {
            Some(p) => Some(*p),
            None => None,
        };
        match existing {
            Some(p) => Some(&mut self.dense[p]),
            None => None,
        }
    }

    /// The stored values in insertion order: position `p` holds the value
    /// for the `p`-th live index.
    pub fn values(&self) -> (r: &Vec<V>)
        requires
            self.wf(),
        ensures
            r@.len() == self.index_seq().len(),
            forall|p: int|
                0 <= p < r@.len() ==> r@[p] == self@[#[trigger] self.index_seq()[p] as int],
    {
        &self.dense
    }

    /// Live indices never repeat a value, so the domain of the view has
    /// exactly one element per dense slot.
    proof fn lemma_dom_len(&self)
        requires
            self.wf(),
        ensures
            self@.dom().len() == self.index_seq().len(),
    {
        let keys = Seq::<int>::new(self.indices@.len(), |p: int| self.indices@[p] as int);
        assert(keys.no_duplicates()) by {
            assert forall|p: int, q: int|
                0 <= p < keys.len() && 0 <= q < keys.len() && p != q implies keys[p]
                != keys[q] by {
                assert(self.sparse@[self.indices@[p] as int] as int == p);
                assert(self.sparse@[self.indices@[q] as int] as int == q);
            }
        }
        assert(self@.dom() =~= keys.to_set()) by {
            assert forall|i: int| self@.dom().contains(i) implies keys.to_set().contains(i) by {
                let p = self.sparse@[i] as int;
                assert(keys[p] == i);
            }
        }
        keys.unique_seq_to_set();
    }
}

} // verus!
