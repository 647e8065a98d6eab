//! Stable sorting of keyed items, and reversal.

use vstd::prelude::*;

verus! {

/// Keys never decrease along `s`.
pub open spec fn keys_sorted<T>(s: Seq<(u64, T)>) -> bool {
    forall|i: int, j: int| 0 <= i < j < s.len() ==> s[i].0 <= s[j].0
}

/// `perm` maps each position of `out` to a distinct position of `inp`
/// holding the same item.
pub open spec fn is_permutation_witness<T>(inp: Seq<T>, out: Seq<T>, perm: Seq<int>) -> bool {
    &&& perm.len() == out.len()
    &&& out.len() == inp.len()
    &&& forall|k: int| 0 <= k < perm.len() ==> 0 <= #[trigger] perm[k] < inp.len()
    &&& forall|k1: int, k2: int|
        0 <= k1 < perm.len() && 0 <= k2 < perm.len() && k1 != k2 ==> perm[k1] != perm[k2]
    &&& forall|k: int| 0 <= k < out.len() ==> out[k] == inp[#[trigger] perm[k]]
}

/// Items of equal key keep their relative order.
pub open spec fn keeps_tie_order<T>(out: Seq<(u64, T)>, perm: Seq<int>) -> bool {
    forall|k1: int, k2: int|
        0 <= k1 < k2 < out.len() && out[k1].0 == out[k2].0 ==> perm[k1] < perm[k2]
}

/// `out` is `inp` sorted by key, stably: what a stable sort by key gives.
pub open spec fn is_stable_sorting<T>(inp: Seq<(u64, T)>, out: Seq<(u64, T)>) -> bool {
    &&& keys_sorted(out)
    &&& exists|perm: Seq<int>| is_permutation_witness(inp, out, perm) && keeps_tie_order(out, perm)
}

/// Sorts items by key; items of equal key keep their order.
pub fn stable_sort_by_key<T>(items: Vec<(u64, T)>) -> (out: Vec<(u64, T)>)
    ensures
        is_stable_sorting(items@, out@),
{
    let ghost inp = items@;
    let mut rest = items;
    let mut out: Vec<(u64, T)> = Vec::new();
    let ghost mut perm: Seq<int> = Seq::empty();
    let n = rest.len();
    let mut i: usize = 0;
    while i < n
        invariant
            n == inp.len(),
            i <= n,
            rest@ == inp.skip(i as int),
            out@.len() == i,
            perm.len() == i,
            keys_sorted(out@),
            forall|k: int| 0 <= k < perm.len() ==> 0 <= #[trigger] perm[k] < i,
            forall|k1: int, k2: int|
                0 <= k1 < perm.len() && 0 <= k2 < perm.len() && k1 != k2 ==> perm[k1] != perm[k2],
            forall|k: int| 0 <= k < out@.len() ==> out@[k] == inp[#[trigger] perm[k]],
            keeps_tie_order(out@, perm),
        decreases n - i,
    {
        assert(rest@.len() > 0);
        let x = rest.remove(0);
        assert(x == inp[i as int]);
        assert(rest@ =~= inp.skip(i + 1));
        let key = x.0;
        // position after the last item whose key is not above `key`
        let mut p: usize = 0;
        while p < out.len() && out[p].0 <= key
            invariant
                p <= out@.len(),
                keys_sorted(out@),
                forall|k: int| 0 <= k < p ==> out@[k].0 <= key,
            decreases out@.len() - p,
        {
            p = p + 1;
        }
        assert(forall|k: int| p <= k < out@.len() ==> out@[k].0 > key) by {
            if p < out@.len() {
                assert(out@[p as int].0 > key);
            }
        }
        let ghost old_out = out@;
        let ghost old_perm = perm;
        out.insert(p, x);
        proof {
            perm = old_perm.insert(p as int, i as int);
            assert(out@ == old_out.insert(p as int, x));
            assert forall|k: int| 0 <= k < out@.len() implies out@[k] == inp[#[trigger] perm[k]] by {
                if k < p {
                    assert(out@[k] == old_out[k]);
                    assert(perm[k] == old_perm[k]);
                } else if k == p {
                } else {
                    assert(out@[k] == old_out[k - 1]);
                    assert(perm[k] == old_perm[k - 1]);
                }
            }
            assert forall|k: int| 0 <= k < perm.len() implies 0 <= #[trigger] perm[k] < i + 1 by {
                if k < p {
                    assert(perm[k] == old_perm[k]);
                } else if k > p {
                    assert(perm[k] == old_perm[k - 1]);
                }
            }
            assert forall|k1: int, k2: int|
                0 <= k1 < perm.len() && 0 <= k2 < perm.len() && k1 != k2 implies perm[k1]
                != perm[k2] by {
                if k1 != p && k2 != p {
                    let a = if k1 < p { k1 } else { k1 - 1 };
                    let b = if k2 < p { k2 } else { k2 - 1 };
                    assert(perm[k1] == old_perm[a]);
                    assert(perm[k2] == old_perm[b]);
                } else if k1 == p {
                    let b = if k2 < p { k2 } else { k2 - 1 };
                    assert(perm[k2] == old_perm[b]);
                } else {
                    let a = if k1 < p { k1 } else { k1 - 1 };
                    assert(perm[k1] == old_perm[a]);
                }
            }
            assert forall|a: int, b: int| 0 <= a < b < out@.len() implies out@[a].0
                <= out@[b].0 by {
                if b < p {
                } else if a < p && b == p {
                } else if a < p && b > p {
                    assert(out@[b] == old_out[b - 1]);
                } else if a == p {
                    assert(out@[b] == old_out[b - 1]);
                } else {
                    assert(out@[a] == old_out[a - 1]);
                    assert(out@[b] == old_out[b - 1]);
                }
            }
            assert forall|k1: int, k2: int|
                0 <= k1 < k2 < out@.len() && out@[k1].0 == out@[k2].0 implies perm[k1]
                < perm[k2] by {
                if k2 < p {
                    assert(perm[k1] == old_perm[k1]);
                    assert(perm[k2] == old_perm[k2]);
                } else if k2 == p {
                    assert(perm[k1] == old_perm[k1]);
                } else if k1 == p {
                    assert(out@[k2] == old_out[k2 - 1]);
                } else if k1 < p {
                    assert(out@[k2] == old_out[k2 - 1]);
                    assert(out@[k2].0 > key);
                } else {
                    assert(perm[k1] == old_perm[k1 - 1]);
                    assert(perm[k2] == old_perm[k2 - 1]);
                    assert(out@[k1] == old_out[k1 - 1]);
                    assert(out@[k2] == old_out[k2 - 1]);
                }
            }
        }
        i = i + 1;
    }
    assert(is_permutation_witness(inp, out@, perm));
    out
}

/// Replaces each item by its image under `f`, keeping the keys.
pub open spec fn map_items<T, U>(s: Seq<(u64, T)>, f: spec_fn(T) -> U) -> Seq<(u64, U)> {
    s.map_values(|e: (u64, T)| (e.0, f(e.1)))
}

/// A stable sorting stays one when every item is replaced by its image.
pub proof fn lemma_stable_sorting_map<T, U>(
    inp: Seq<(u64, T)>,
    out: Seq<(u64, T)>,
    f: spec_fn(T) -> U,
)
    requires
        is_stable_sorting(inp, out),
    ensures
        is_stable_sorting(map_items(inp, f), map_items(out, f)),
{
    let perm = choose|perm: Seq<int>|
        is_permutation_witness(inp, out, perm) && keeps_tie_order(out, perm);
    let mi = map_items(inp, f);
    let mo = map_items(out, f);
    assert forall|k: int| 0 <= k < mo.len() implies mo[k] == mi[#[trigger] perm[k]] by {
        assert(out[k] == inp[perm[k]]);
    }
    assert(is_permutation_witness(mi, mo, perm));
    assert(keeps_tie_order(mo, perm));
}

/// The items in reverse order.
pub fn reversed<T>(v: Vec<T>) -> (r: Vec<T>)
    ensures
        r@ == v@.reverse(),
{
    let ghost orig = v@;
    let mut v = v;
    let mut r: Vec<T> = Vec::new();
    while v.len() > 0
        invariant
            v@ == orig.take(v@.len() as int),
            v@.len() <= orig.len(),
            r@ == orig.skip(v@.len() as int).reverse(),
        decreases v@.len(),
    {
        let ghost before = v@.len();
        let x = v.pop().unwrap();
        proof {
            assert(x == orig[before - 1]);
            assert(v@ =~= orig.take(v@.len() as int));
            assert(orig.skip(v@.len() as int).reverse() =~= orig.skip(before as int).reverse().push(x));
        }
        r.push(x);
    }
    assert(orig.skip(0) =~= orig);
    r
}

} // verus!
