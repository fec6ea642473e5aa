//! The query join: intersects the presence masks of several storages and
//! yields synchronized access to every entity index present in all of
//! them, in ascending index order.
//!
//! Shared access comes back as reference tuples. For exclusive access,
//! drive the visit from the intersected index list and fetch each index
//! once through the storage's mutable lookup: every step is then provably
//! disjoint from the others, and borrowing rules keep one query from
//! holding the same storage both shared and exclusively.

use vstd::prelude::*;

use crate::masked::Masked;
use crate::masked::Storage;
use crate::masked::strictly_increasing;

verus! {

/// Sorted intersection of two strictly increasing index sequences.
fn intersect_sorted(x: &Vec<u32>, y: &Vec<u32>) -> (v: Vec<u32>)
    requires
        strictly_increasing(x@),
        strictly_increasing(y@),
    ensures
        strictly_increasing(v@),
        forall|i: u32| v@.contains(i) <==> x@.contains(i) && y@.contains(i),
{
    broadcast use vstd::seq_lib::lemma_seq_contains_after_push;

    let mut v: Vec<u32> = Vec::new();
    let mut p: usize = 0;
    let mut q: usize = 0;
    while p < x.len() && q < y.len()
        invariant
            strictly_increasing(x@),
            strictly_increasing(y@),
            p <= x@.len(),
            q <= y@.len(),
            strictly_increasing(v@),
            forall|i: u32| v@.contains(i) <==> x@.take(p as int).contains(i) && y@.take(
                q as int,
            ).contains(i),
            forall|i: u32| x@.take(p as int).contains(i) ==> q == y@.len() || i < y@[q as int],
            forall|i: u32| y@.take(q as int).contains(i) ==> p == x@.len() || i < x@[p as int],
        decreases x@.len() + y@.len() - p - q,
    {
        let xv = x[p];
        let yv = y[q];
        proof {
            assert(x@.take(p as int + 1) =~= x@.take(p as int).push(xv));
            assert(y@.take(q as int + 1) =~= y@.take(q as int).push(yv));
        }
        if xv < yv {
            proof {
                assert forall|i: u32|
                    v@.contains(i) == (x@.take(p as int + 1).contains(i) && y@.take(
                        q as int,
                    ).contains(i)) by {
                    if x@.take(p as int + 1).contains(i) && y@.take(q as int).contains(i) {
                        assert(i < x@[p as int]);
                        assert(x@.take(p as int).contains(i));
                    }
                    if v@.contains(i) {
                        assert(x@.take(p as int).contains(i));
                        assert(x@.take(p as int + 1).contains(i));
                    }
                }
            }
            p = p + 1;
        } else if yv < xv {
            proof {
                assert forall|i: u32|
                    v@.contains(i) == (x@.take(p as int).contains(i) && y@.take(
                        q as int + 1,
                    ).contains(i)) by {
                    if x@.take(p as int).contains(i) && y@.take(q as int + 1).contains(i) {
                        assert(i < y@[q as int]);
                        assert(y@.take(q as int).contains(i));
                    }
                    if v@.contains(i) {
                        assert(y@.take(q as int).contains(i));
                        assert(y@.take(q as int + 1).contains(i));
                    }
                }
            }
            q = q + 1;
        } else {
            proof {
                assert forall|t: int| 0 <= t < v@.len() implies v@[t] < xv by {
                    assert(v@.contains(v@[t]));
                    let j = choose|j: int| 0 <= j < p && x@.take(p as int)[j] == v@[t];
                    assert(x@[j] < x@[p as int]);
                }
            }
            let ghost v0 = v@;
            v.push(xv);
            proof {
                assert(v@ == v0.push(xv));
                assert(strictly_increasing(v@)) by {
                    assert forall|s: int, t: int| 0 <= s < t < v@.len() implies v@[s] < v@[t] by {
                        assert(v@[s] == v0[s]);
                        if t < v@.len() - 1 {
                            assert(v@[t] == v0[t]);
                        } else {
                            assert(v@[t] == xv);
                        }
                    }
                }
                assert forall|i: u32|
                    v@.contains(i) == (x@.take(p as int + 1).contains(i) && y@.take(
                        q as int + 1,
                    ).contains(i)) by {
                    vstd::seq_lib::lemma_seq_contains_after_push(v0, xv, i);
                    assert(v0.push(xv).contains(i) <==> i == xv || v0.contains(i));
                    if i == xv {
                        assert(v@.contains(i));
                        assert(x@.take(p as int + 1)[p as int] == xv);
                        assert(x@.take(p as int + 1).contains(i));
                        assert(y@.take(q as int + 1)[q as int] == yv);
                        assert(y@.take(q as int + 1).contains(i));
                    } else {
                        assert(x@.take(p as int + 1).contains(i) <==> x@.take(p as int).contains(
                            i,
                        ));
                        assert(y@.take(q as int + 1).contains(i) <==> y@.take(q as int).contains(
                            i,
                        ));
                    }
                }
            }
            p = p + 1;
            q = q + 1;
        }
    }
    proof {
        assert forall|i: u32| v@.contains(i) <==> x@.contains(i) && y@.contains(i) by {
            if x@.contains(i) && y@.contains(i) {
                let jx = choose|j: int| 0 <= j < x@.len() && x@[j] == i;
                let jy = choose|j: int| 0 <= j < y@.len() && y@[j] == i;
                if p == x@.len() {
                    assert(x@.take(p as int) =~= x@);
                    assert(x@.take(p as int).contains(i));
                    if jy >= q {
                        assert(y@[jy] >= y@[q as int] || jy == q);
                        assert(i < y@[q as int] || q == y@.len());
                        assert(false);
                    }
                    assert(y@.take(q as int)[jy] == i);
                    assert(y@.take(q as int).contains(i));
                } else {
                    assert(y@.take(q as int) =~= y@);
                    assert(y@.take(q as int).contains(i));
                    if jx >= p {
                        assert(x@[jx] >= x@[p as int] || jx == p);
                        assert(false);
                    }
                    assert(x@.take(p as int)[jx] == i);
                    assert(x@.take(p as int).contains(i));
                }
            } else {
                if v@.contains(i) {
                    assert(x@.take(p as int).contains(i));
                    assert(y@.take(q as int).contains(i));
                    let jx = choose|j: int| 0 <= j < p && x@.take(p as int)[j] == i;
                    let jy = choose|j: int| 0 <= j < q && y@.take(q as int)[j] == i;
                    assert(x@[jx] == i);
                    assert(y@[jy] == i);
                    assert(x@.contains(i));
                    assert(y@.contains(i));
                    assert(false);
                }
            }
        }
    }
    v
}

/// The indices present in both storages, in ascending order: the bitwise
/// AND of the two presence masks, materialized as a sorted index list.
pub fn join_indices<A: Storage, B: Storage>(a: &Masked<A>, b: &Masked<B>) -> (v: Vec<u32>)
    requires
        a.wf(),
        b.wf(),
    ensures
        strictly_increasing(v@),
        forall|i: u32| v@.contains(i) <==> a@.dom().contains(i) && b@.dom().contains(i),
{
    let ia = a.indices();
    let ib = b.indices();
    intersect_sorted(&ia, &ib)
}

/// The indices present in all three storages, in ascending order.
pub fn join3_indices<A: Storage, B: Storage, C: Storage>(
    a: &Masked<A>,
    b: &Masked<B>,
    c: &Masked<C>,
) -> (v: Vec<u32>)
    requires
        a.wf(),
        b.wf(),
        c.wf(),
    ensures
        strictly_increasing(v@),
        forall|i: u32|
            v@.contains(i) <==> a@.dom().contains(i) && b@.dom().contains(i) && c@.dom().contains(
                i,
            ),
{
    let iab = join_indices(a, b);
    let ic = c.indices();
    intersect_sorted(&iab, &ic)
}

/// Joins two storages with shared access: yields, in ascending index
/// order, one entry per entity present in both, carrying the entity index
/// and a reference into each backing store — exactly what a direct
/// per-storage lookup at that index returns.
pub fn join2<'a, A: Storage, B: Storage>(a: &'a Masked<A>, b: &'a Masked<B>) -> (v: Vec<
    (u32, &'a A::Component, &'a B::Component),
>)
    requires
        a.wf(),
        b.wf(),
    ensures
        forall|p: int, q: int| 0 <= p < q < v@.len() ==> v@[p].0 < v@[q].0,
        forall|t: int|
            0 <= t < v@.len() ==> a@.dom().contains(#[trigger] v@[t].0) && b@.dom().contains(
                v@[t].0,
            ) && *v@[t].1 == a@[v@[t].0] && *v@[t].2 == b@[v@[t].0],
        forall|i: u32|
            a@.dom().contains(i) && b@.dom().contains(i) ==> exists|t: int|
                0 <= t < v@.len() && #[trigger] v@[t].0 == i,
{
    let idx = join_indices(a, b);
    let mut v: Vec<(u32, &'a A::Component, &'a B::Component)> = Vec::new();
    let mut k: usize = 0;
    while k < idx.len()
        invariant
            a.wf(),
            b.wf(),
            strictly_increasing(idx@),
            forall|i: u32| idx@.contains(i) <==> a@.dom().contains(i) && b@.dom().contains(i),
            k <= idx@.len(),
            v@.len() == k,
            forall|t: int| 0 <= t < k ==> #[trigger] v@[t].0 == idx@[t],
            forall|t: int|
                0 <= t < k ==> a@.dom().contains(#[trigger] v@[t].0) && b@.dom().contains(v@[t].0)
                    && *v@[t].1 == a@[v@[t].0] && *v@[t].2 == b@[v@[t].0],
        decreases idx@.len() - k,
    {
        let i = idx[k];
        proof {
            assert(idx@.contains(idx@[k as int]));
        }
        let va = match a.get(i) {
            Some(r) => r,
            None => vstd::pervasive::unreached(),
        };
        let vb = match b.get(i) {
            Some(r) => r,
            None => vstd::pervasive::unreached(),
        };
        v.push((i, va, vb));
        k = k + 1;
    }
    proof {
        assert forall|i: u32|
            a@.dom().contains(i) && b@.dom().contains(i) implies exists|t: int|
            0 <= t < v@.len() && #[trigger] v@[t].0 == i by {
            assert(idx@.contains(i));
            let t = choose|t: int| 0 <= t < idx@.len() && idx@[t] == i;
            assert(v@[t].0 == i);
        }
    }
    v
}

} // verus!
