//! Presence-masked component storage: a backing store paired with a
//! presence bitset that is the single source of truth for which indices
//! hold a value. The backing store's own access operations carry the
//! precondition "the slot is live", and this wrapper alone discharges it.

use hibitset::BitSet;
use hibitset::BitSetLike;
use vstd::prelude::*;

use crate::storage::SparseSet;

verus! {

/// The largest entity index a presence mask accepts; the bitset backing the
/// mask has a fixed four-layer capacity and rejects indices beyond it.
pub const MASK_INDEX_LIMIT: u32 = 16777216;

#[verifier::external_type_specification]
#[verifier::external_body]
pub struct ExBitSet(BitSet);

/// The set of bit indices currently set in a presence bitset.
pub uninterp spec fn bits_of(b: BitSet) -> Set<u32>;

/// Relies on hibitset::BitSet::new: a freshly created bitset has no bit set.
#[verifier::external_body]
fn bit_set_new() -> (b: BitSet)
    ensures
        bits_of(b) == Set::<u32>::empty(),
{
    BitSet::new()
}

/// Relies on hibitset::BitSet::add: sets bit `i` and reports whether it was
/// already set. Indices beyond the bitset's fixed capacity make it panic,
/// so the precondition keeps them out.
#[verifier::external_body]
fn bit_set_add(b: &mut BitSet, i: u32) -> (was: bool)
    requires
        i < MASK_INDEX_LIMIT,
    ensures
        was == bits_of(*old(b)).contains(i),
        bits_of(*final(b)) == bits_of(*old(b)).insert(i),
{
    b.add(i)
}

/// Relies on hibitset::BitSet::remove: clears bit `i` and reports whether
/// it was set; an index beyond the allocated layers is simply reported absent.
#[verifier::external_body]
fn bit_set_remove(b: &mut BitSet, i: u32) -> (was: bool)
    ensures
        was == bits_of(*old(b)).contains(i),
        bits_of(*final(b)) == bits_of(*old(b)).remove(i),
{
    b.remove(i)
}

/// Relies on hibitset::BitSet::contains: reports whether bit `i` is set.
#[verifier::external_body]
fn bit_set_contains(b: &BitSet, i: u32) -> (r: bool)
    ensures
        r == bits_of(*b).contains(i),
{
    b.contains(i)
}

/// Relies on hibitset::BitSetLike::iter: visits every set bit exactly once,
/// lowest first, so the collected indices come out strictly ascending.
#[verifier::external_body]
fn bit_set_indices(b: &BitSet) -> (v: Vec<u32>)
    ensures
        strictly_increasing(v@),
        forall|i: u32| v@.contains(i) <==> bits_of(*b).contains(i),
{
    b.iter().collect()
}

/// Each element is strictly larger than every element before it.
pub open spec fn strictly_increasing(s: Seq<u32>) -> bool {
    forall|p: int, q: int| 0 <= p < q < s.len() ==> s[p] < s[q]
}

/// A backing store for one component type, keyed by a small unsigned index.
/// Access operations carry the precondition that the slot is live; the
/// `Masked` wrapper guarantees it through its presence bitset.
pub trait Storage: Sized {
    type Component;

    /// The store's internal consistency, established by its constructor and
    /// preserved by every operation.
    spec fn inv(&self) -> bool;

    /// The partial map from a live index to the value it holds.
    spec fn contents(&self) -> Map<u32, Self::Component>;

    /// Creates a store that holds nothing.
    fn empty() -> (s: Self)
        ensures
            s.inv(),
            s.contents() == Map::<u32, Self::Component>::empty(),
    ;

    /// Stores a value at an index that holds none.
    fn insert(&mut self, i: u32, x: Self::Component)
        requires
            old(self).inv(),
            !old(self).contents().dom().contains(i),
        ensures
            final(self).inv(),
            final(self).contents() == old(self).contents().insert(i, x),
    ;

    /// Moves the value at a live index out of the store.
    fn remove(&mut self, i: u32) -> (x: Self::Component)
        requires
            old(self).inv(),
            old(self).contents().dom().contains(i),
        ensures
            final(self).inv(),
            x == old(self).contents()[i],
            final(self).contents() == old(self).contents().remove(i),
    ;

    /// Reads the value at a live index.
    fn get(&self, i: u32) -> (x: &Self::Component)
        requires
            self.inv(),
            self.contents().dom().contains(i),
        ensures
            *x == self.contents()[i],
    ;

    /// Borrows the value at a live index for writing; whatever the caller
    /// writes through the borrow, the store stays consistent and only that
    /// index's value changes.
    fn get_mut(&mut self, i: u32) -> (x: &mut Self::Component)
        requires
            old(self).inv(),
            old(self).contents().dom().contains(i),
        ensures
            *x == old(self).contents()[i],
            final(self).inv(),
            final(self).contents() == old(self).contents().insert(i, *final(x)),
    ;
}

impl<V> Storage for SparseSet<V> {
    type Component = V;

    open spec fn inv(&self) -> bool {
        self.wf()
    }

    open spec fn contents(&self) -> Map<u32, V> {
        Map::new(|i: u32| self@.dom().contains(i as int), |i: u32| self@[i as int])
    }

    fn empty() -> (s: Self) {
        let s = SparseSet::new();
        proof {
            assert(s.contents() =~= Map::<u32, V>::empty());
        }
        s
    }

    fn insert(&mut self, i: u32, x: V) {
        SparseSet::insert(self, i as usize, x);
        proof {
            assert(final(self).contents() =~= old(self).contents().insert(i, x));
        }
    }

    fn remove(&mut self, i: u32) -> (x: V) {
        let r = SparseSet::remove(self, i as usize);
        proof {
            assert(final(self).contents() =~= old(self).contents().remove(i));
        }
        match r {
            Some(v) => v,
            None => vstd::pervasive::unreached(),
        }
    }

    fn get(&self, i: u32) -> (x: &V) {
        match SparseSet::get(self, i as usize) {
            Some(v) => v,
            None => vstd::pervasive::unreached(),
        }
    }

    fn get_mut(&mut self, i: u32) -> (x: &mut V) {
        match SparseSet::get_mut(self, i as usize) {
            Some(v) => v,
            None => vstd::pervasive::unreached(),
        }
    }
}

/// A backing store paired with a presence bitset over entity indices. Bit
/// `i` is set if and only if the store holds a value at `i`; every insert
/// and remove updates mask and store together, and only indices whose bit
/// is set ever reach the store's access operations.
///
/// The store holds exactly the values the mask marks present, so tearing
/// the wrapper down releases each present value exactly once, through the
/// store it lives in, and never touches an absent index.
pub struct Masked<S: Storage> {
    inner: S,
    mask: BitSet,
}

impl<S: Storage> View for Masked<S> {
    type V = Map<u32, S::Component>;

    closed spec fn view(&self) -> Map<u32, S::Component> {
        self.inner.contents()
    }
}

impl<S: Storage> Masked<S> {
    /// The mask is the single source of truth: its set bits are exactly the
    /// indices at which the backing store holds a value.
    pub closed spec fn wf(&self) -> bool {
        &&& self.inner.inv()
        &&& bits_of(self.mask) =~= self.inner.contents().dom()
    }

    /// Wraps an empty backing store with an empty presence mask.
    pub fn new(x: S) -> (m: Self)
        requires
            x.inv(),
            x.contents() =~= Map::<u32, S::Component>::empty(),
        ensures
            m.wf(),
            m@ == Map::<u32, S::Component>::empty(),
    {
        let m = Masked { inner: x, mask: bit_set_new() };
        proof {
            assert(bits_of(m.mask) =~= m.inner.contents().dom());
        }
        m
    }

    /// A masked storage over a freshly created empty backing store.
    pub fn empty() -> (m: Self)
        ensures
            m.wf(),
            m@ == Map::<u32, S::Component>::empty(),
    {
        Masked::new(S::empty())
    }

    /// Sets the presence bit for `i` and stores `x`; when the bit was
    /// already set, the previous value is first moved out of the backing
    /// store and returned, so no value is leaked or doubly initialized.
    pub fn insert(&mut self, i: u32, x: S::Component) -> (prev: Option<S::Component>)
        requires
            old(self).wf(),
            i < MASK_INDEX_LIMIT,
        ensures
            final(self).wf(),
            final(self)@ == old(self)@.insert(i, x),
            prev == (if old(self)@.dom().contains(i) {
                Some(old(self)@[i])
            } else {
                None::<S::Component>
            }),
    {
        let was = bit_set_add(&mut self.mask, i);
        let prev = if was {
            Some(self.inner.remove(i))
        } else {
            None
        };
        self.inner.insert(i, x);
        proof {
            assert(bits_of(self.mask) =~= self.inner.contents().dom());
        }
        prev
    }

    /// Clears the presence bit for `i`; when it had been set, moves the
    /// value out of the backing store and returns it, otherwise performs no
    /// backing-store access at all.
    pub fn remove(&mut self, i: u32) -> (r: Option<S::Component>)
        requires
            old(self).wf(),
        ensures
            final(self).wf(),
            final(self)@ == old(self)@.remove(i),
            r == (if old(self)@.dom().contains(i) {
                Some(old(self)@[i])
            } else {
                None::<S::Component>
            }),
    {
        let was = bit_set_remove(&mut self.mask, i);
        if was {
            let v = self.inner.remove(i);
            proof {
                assert(bits_of(self.mask) =~= self.inner.contents().dom());
            }
            Some(v)
        } else {
            proof {
                assert(old(self)@.remove(i) =~= old(self)@);
            }
            None
        }
    }

    /// O(1) presence check through the mask alone.
    pub fn contains(&self, i: u32) -> (r: bool)
        requires
            self.wf(),
        ensures
            r == self@.dom().contains(i),
    {
        bit_set_contains(&self.mask, i)
    }

    /// Reads the value stored at `i`, or `None` when its bit is clear.
    pub fn get(&self, i: u32) -> (r: Option<&S::Component>)
        requires
            self.wf(),
        ensures
            match r {
                Some(v) => self@.dom().contains(i) && *v == self@[i],
                None => !self@.dom().contains(i),
            },
    {
        if self.contains(i) {
            Some(self.inner.get(i))
        } else {
            None
        }
    }

    /// Borrows the value stored at a present index for writing.
    pub fn get_mut(&mut self, i: u32) -> (r: &mut S::Component)
        requires
            old(self).wf(),
            old(self)@.dom().contains(i),
        ensures
            *r == old(self)@[i],
            final(self).wf(),
            final(self)@ == old(self)@.insert(i, *final(r)),
    {
        self.inner.get_mut(i)
    }

    /// The present indices in ascending order: the lazy iteration order of
    /// the presence bitset, materialized.
    pub fn indices(&self) -> (v: Vec<u32>)
        requires
            self.wf(),
        ensures
            strictly_increasing(v@),
            forall|i: u32| v@.contains(i) <==> self@.dom().contains(i),
    {
        bit_set_indices(&self.mask)
    }

    /// One entry per present index, in ascending index order: the index
    /// and a reference to its value. Restarting the walk is a fresh call.
    pub fn entries(&self) -> (v: Vec<(u32, &S::Component)>)
        requires
            self.wf(),
        ensures
            forall|p: int, q: int| 0 <= p < q < v@.len() ==> v@[p].0 < v@[q].0,
            forall|t: int|
                0 <= t < v@.len() ==> self@.dom().contains(#[trigger] v@[t].0) && *v@[t].1
                    == self@[v@[t].0],
            forall|i: u32|
                self@.dom().contains(i) ==> exists|t: int|
                    0 <= t < v@.len() && #[trigger] v@[t].0 == i,
    {
        let idx = self.indices();
        let mut v: Vec<(u32, &S::Component)> = Vec::new();
        let mut k: usize = 0;
        while k < idx.len()
            invariant
                self.wf(),
                strictly_increasing(idx@),
                forall|i: u32| idx@.contains(i) <==> self@.dom().contains(i),
                k <= idx@.len(),
                v@.len() == k,
                forall|t: int| 0 <= t < k ==> #[trigger] v@[t].0 == idx@[t],
                forall|t: int|
                    0 <= t < k ==> self@.dom().contains(#[trigger] v@[t].0) && *v@[t].1
                        == self@[v@[t].0],
            decreases idx@.len() - k,
        {
            let i = idx[k];
            proof {
                assert(idx@.contains(idx@[k as int]));
            }
            let x = match self.get(i) {
                Some(r) => r,
                None => vstd::pervasive::unreached(),
            };
            v.push((i, x));
            k = k + 1;
        }
        proof {
            assert forall|i: u32| self@.dom().contains(i) implies exists|t: int|
                0 <= t < v@.len() && #[trigger] v@[t].0 == i by {
                assert(idx@.contains(i));
                let t = choose|t: int| 0 <= t < idx@.len() && idx@[t] == i;
                assert(v@[t].0 == i);
            }
        }
        v
    }
}

/// One operation against a masked storage: store a value at an index, or
/// clear an index.
pub enum MaskOp<C> {
    /// Store the value at the index.
    Insert(u32, C),
    /// Clear the index.
    Remove(u32),
}

/// Whether an operation addresses index `i`.
pub open spec fn touches<C>(op: MaskOp<C>, i: u32) -> bool {
    match op {
        MaskOp::Insert(j, _) => j == i,
        MaskOp::Remove(j) => j == i,
    }
}

/// The set of present indices after a sequence of operations runs against
/// a storage whose present set was `init`: each operation in turn adds or
/// removes its index.
pub open spec fn present_after<C>(init: Set<u32>, ops: Seq<MaskOp<C>>) -> Set<u32>
    decreases ops.len(),
{
    if ops.len() == 0 {
        init
    } else {
        match ops.last() {
            MaskOp::Insert(i, _) => present_after(init, ops.drop_last()).insert(i),
            MaskOp::Remove(i) => present_after(init, ops.drop_last()).remove(i),
        }
    }
}

/// An index is present after a sequence of operations exactly when its
/// last operation was an insert; an index no operation addresses keeps its
/// initial presence.
pub proof fn lemma_present_after_characterizes<C>(init: Set<u32>, ops: Seq<MaskOp<C>>, i: u32)
    ensures
        (forall|t: int| 0 <= t < ops.len() ==> !touches(ops[t], i)) ==> (present_after(
            init,
            ops,
        ).contains(i) == init.contains(i)),
        forall|t: int|
            (0 <= t < ops.len() && touches(ops[t], i) && (forall|u: int|
                t < u < ops.len() ==> !touches(#[trigger] ops[u], i))) ==> (present_after(
                init,
                ops,
            ).contains(i) == #[trigger] ops[t] is Insert),
    decreases ops.len(),
{
    if ops.len() > 0 {
        lemma_present_after_characterizes(init, ops.drop_last(), i);
        let l = ops.last();
        assert forall|t: int|
            (0 <= t < ops.len() && touches(ops[t], i) && (forall|u: int|
                t < u < ops.len() ==> !touches(#[trigger] ops[u], i))) implies (present_after(
            init,
            ops,
        ).contains(i) == ops[t] is Insert) by {
            if t == ops.len() - 1 {
                assert(ops[t] == l);
            } else {
                assert(!touches(l, i));
                assert(ops.drop_last()[t] == ops[t]);
                assert(forall|u: int|
                    t < u < ops.drop_last().len() ==> !touches(#[trigger] ops.drop_last()[u], i));
            }
        }
        if forall|t: int| 0 <= t < ops.len() ==> !touches(#[trigger] ops[t], i) {
            assert(!touches(l, i));
            assert(forall|t: int|
                0 <= t < ops.drop_last().len() ==> !touches(#[trigger] ops.drop_last()[t], i));
        }
    }
}

impl<S: Storage> Masked<S> {
    /// Runs a sequence of operations against the storage, oldest first.
    /// Afterwards the presence set — the mask — is exactly `present_after`
    /// of the sequence: the indices whose last operation was an insert,
    /// plus the initially present indices no operation addressed.
    pub fn apply_ops(&mut self, ops: Vec<MaskOp<S::Component>>)
        requires
            old(self).wf(),
            forall|t: int|
                0 <= t < ops@.len() ==> (#[trigger] ops@[t] matches MaskOp::Insert(i, _) ==> i
                    < MASK_INDEX_LIMIT),
        ensures
            final(self).wf(),
            final(self)@.dom() == present_after(old(self)@.dom(), ops@),
    {
        let ghost ops0 = ops@;
        let ghost init = self@.dom();
        let mut rest = ops;
        let ghost k: int = 0;
        while rest.len() > 0
            invariant
                self.wf(),
                0 <= k <= ops0.len(),
                rest@ =~= ops0.skip(k),
                self@.dom() =~= present_after(init, ops0.take(k)),
                forall|t: int|
                    0 <= t < ops0.len() ==> (#[trigger] ops0[t] matches MaskOp::Insert(i, _) ==> i
                        < MASK_INDEX_LIMIT),
            decreases rest@.len(),
        {
            let op = rest.remove(0);
            proof {
                assert(op == ops0[k]);
                assert(ops0.take(k + 1).drop_last() =~= ops0.take(k));
                assert(ops0.take(k + 1).last() == ops0[k]);
            }
            match op {
                MaskOp::Insert(i, x) => {
                    let _ = self.insert(i, x);
                },
                MaskOp::Remove(i) => {
                    let _ = self.remove(i);
                },
            }
            proof {
                k = k + 1;
                assert(rest@ =~= ops0.skip(k));
            }
        }
        proof {
            assert(ops0.take(ops0.len() as int) =~= ops0);
        }
    }
}

/// The type-erased capability every stored component type supports
/// uniformly: releasing one index's value without knowing the component
/// type. Entity-despawn logic clears all of an entity's components through
/// it without being generic over every registered type.
pub trait AbstractStorage {
    /// The storage's internal consistency.
    spec fn abs_inv(&self) -> bool;

    /// The set of indices that currently hold a value.
    spec fn present(&self) -> Set<u32>;

    /// Releases the value held for `i`, if any.
    fn free(&mut self, i: u32)
        requires
            old(self).abs_inv(),
        ensures
            final(self).abs_inv(),
            final(self).present() == old(self).present().remove(i),
    ;
}

impl<S: Storage> AbstractStorage for Masked<S> {
    open spec fn abs_inv(&self) -> bool {
        self.wf()
    }

    open spec fn present(&self) -> Set<u32> {
        self@.dom()
    }

    fn free(&mut self, i: u32) {
        let _ = self.remove(i);
    }
}

} // verus!
