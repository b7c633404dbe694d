//! Sorted key indexes: the logarithmic exact-match access paths.
//!
//! An index is a vector of `(key, position)` pairs, strictly sorted by
//! key, that maps a packed code to the position of its entry in the
//! table. Insertion keeps the order and is used only while the
//! registry is assembled; lookup is binary search.

use vstd::prelude::*;

verus! {

/// Whether the index's keys are strictly increasing.
pub open spec fn strictly_sorted(idx: Seq<(u32, usize)>) -> bool {
    forall|p: int, q: int|
        0 <= p < q < idx.len() ==> (#[trigger] idx[p]).0 < (#[trigger] idx[q]).0
}

/// Whether the index maps the key `k` to the position `v`.
pub open spec fn index_maps(idx: Seq<(u32, usize)>, k: u32, v: usize) -> bool {
    exists|p: int| 0 <= p < idx.len() && #[trigger] idx[p] == (k, v)
}

/// Whether the index holds the key `k` at all.
pub open spec fn index_has(idx: Seq<(u32, usize)>, k: u32) -> bool {
    exists|p: int| 0 <= p < idx.len() && (#[trigger] idx[p]).0 == k
}

/// Insert a key that is not yet present, keeping the order: afterwards
/// the index maps exactly what it mapped before, plus `key` to `value`.
#[verifier::rlimit(60)]
pub fn insert_key(idx: &mut Vec<(u32, usize)>, key: u32, value: usize)
    requires
        strictly_sorted(old(idx)@),
        !index_has(old(idx)@, key),
    ensures
        strictly_sorted(final(idx)@),
        forall|k: u32, v: usize|
            index_maps(final(idx)@, k, v) <==> index_maps(old(idx)@, k, v) || (k == key && v
                == value),
{
    let ghost orig = idx@;
    let mut p: usize = 0;
    while p < idx.len() && idx[p].0 < key
        invariant
            idx@ == orig,
            0 <= p <= orig.len(),
            forall|j: int| 0 <= j < p ==> (#[trigger] orig[j]).0 < key,
            strictly_sorted(orig),
            !index_has(orig, key),
        decreases orig.len() - p,
    {
        p = p + 1;
    }
    proof {
        assert forall|j: int| p <= j < orig.len() implies (#[trigger] orig[j]).0 > key by {
            assert(orig[p as int].0 != key);
            if j > p {
                assert(orig[p as int].0 < orig[j].0);
            }
        }
    }
    idx.insert(p, (key, value));
    proof {
        let t = idx@;
        orig.insert_ensures(p as int, (key, value));
        assert forall|a: int, b: int| 0 <= a < b < t.len() implies (#[trigger] t[a]).0 < (
        #[trigger] t[b]).0 by {
            if b < p {
                assert(t[a] == orig[a] && t[b] == orig[b]);
            } else if b == p {
                assert(t[a] == orig[a] && t[b] == (key, value));
            } else if a < p {
                assert(t[a] == orig[a] && t[b] == orig[b - 1]);
            } else if a == p {
                assert(t[a] == (key, value) && t[b] == orig[b - 1]);
            } else {
                assert(t[a] == orig[a - 1] && t[b] == orig[b - 1]);
            }
        }
        assert forall|k: u32, v: usize|
            index_maps(t, k, v) <==> index_maps(orig, k, v) || (k == key && v == value) by {
            if index_maps(t, k, v) {
                let q = choose|q: int| 0 <= q < t.len() && #[trigger] t[q] == (k, v);
                if q < p {
                    assert(orig[q] == (k, v));
                } else if q == p {
                    assert((k, v) == (key, value));
                } else {
                    assert(orig[q - 1] == (k, v));
                }
            }
            if index_maps(orig, k, v) {
                let q = choose|q: int| 0 <= q < orig.len() && #[trigger] orig[q] == (k, v);
                if q < p {
                    assert(t[q] == (k, v));
                } else {
                    assert(t[q + 1] == (k, v));
                }
            }
            if k == key && v == value {
                assert(t[p as int] == (k, v));
            }
        }
    }
}

/// Binary search for a key: the mapped position when the key is
/// present, `None` exactly when it is not.
pub fn search_key(idx: &Vec<(u32, usize)>, key: u32) -> (r: Option<usize>)
    requires
        strictly_sorted(idx@),
    ensures
        match r {
            Some(v) => index_maps(idx@, key, v),
            None => !index_has(idx@, key),
        },
{
    let mut lo: usize = 0;
    let mut hi: usize = idx.len();
    while lo < hi
        invariant
            0 <= lo <= hi <= idx@.len(),
            strictly_sorted(idx@),
            forall|p: int| 0 <= p < lo ==> (#[trigger] idx@[p]).0 < key,
            forall|p: int| hi <= p < idx@.len() ==> (#[trigger] idx@[p]).0 > key,
        decreases hi - lo,
    {
        let mid = lo + (hi - lo) / 2;
        let k = idx[mid].0;
        if k == key {
            let v = idx[mid].1;
            proof {
                assert(idx@[mid as int] == (key, v));
            }
            return Some(v);
        } else if k < key {
            proof {
                assert forall|p: int| 0 <= p < mid + 1 implies (#[trigger] idx@[p]).0 < key by {
                    if p < mid {
                        assert(idx@[p].0 < idx@[mid as int].0);
                    }
                }
            }
            lo = mid + 1;
        } else {
            proof {
                assert forall|p: int| mid <= p < idx@.len() implies (#[trigger] idx@[p]).0
                    > key by {
                    if p > mid {
                        assert(idx@[mid as int].0 < idx@[p].0);
                    }
                }
            }
            hi = mid;
        }
    }
    None
}

} // verus!
