//! The ranking of the subsets of a given size, and its inverse.

use crate::math::{
    binomial, factorial, lemma_binomial_bound, lemma_binomial_edges, lemma_factorial_increases,
    lemma_factorial_table, n_choose_k, FAC, MAX_LEN,
};
use vstd::prelude::*;

verus! {

/// The number of entries that are `true`.
pub open spec fn count_true(v: Seq<bool>) -> nat
    decreases v.len(),
{
    if v.len() == 0 {
        0
    } else {
        count_true(v.drop_last()) + if v.last() {
            1nat
        } else {
            0nat
        }
    }
}

/// The rank of a subset of `0..n`, given by the sequence that says of each
/// element whether it is chosen, among the subsets of its size.  Going
/// through the elements in order, every element that is not chosen and
/// comes after `k >= 1` chosen ones adds `C(position, k - 1)`.
pub open spec fn spec_map_nck(v: Seq<bool>) -> nat
    decreases v.len(),
{
    if v.len() == 0 {
        0
    } else {
        let pre = v.drop_last();
        let k = count_true(pre);
        spec_map_nck(pre) + if !v.last() && k > 0 {
            binomial(pre.len(), (k - 1) as nat)
        } else {
            0
        }
    }
}

/// The subset of `0..n` with `k` elements that has rank `i`, for
/// `i < C(n, k)`: the last element is left out if `i` reaches
/// `C(n - 1, k - 1)`, which then comes off `i`, and is chosen otherwise.
pub open spec fn spec_get_nck(n: nat, k: nat, i: nat) -> Seq<bool>
    decreases n,
{
    if n == 0 {
        Seq::empty()
    } else if k == 0 {
        spec_get_nck((n - 1) as nat, 0, i).push(false)
    } else if i >= binomial((n - 1) as nat, (k - 1) as nat) {
        spec_get_nck((n - 1) as nat, k, (i - binomial((n - 1) as nat, (k - 1) as nat)) as nat).push(
            false,
        )
    } else {
        spec_get_nck((n - 1) as nat, (k - 1) as nat, i).push(true)
    }
}

/// No more entries are `true` than there are entries.
pub proof fn lemma_count_true_bound(v: Seq<bool>)
    ensures
        count_true(v) <= v.len(),
    decreases v.len(),
{
    if v.len() > 0 {
        lemma_count_true_bound(v.drop_last());
    }
}

/// The rank of a subset with `k` elements out of `n` is below `C(n, k)`.
pub proof fn lemma_map_nck_bound(v: Seq<bool>)
    ensures
        spec_map_nck(v) < binomial(v.len(), count_true(v)),
    decreases v.len(),
{
    if v.len() == 0 {
    } else {
        let pre = v.drop_last();
        lemma_map_nck_bound(pre);
        let k = count_true(pre);
        if v.last() {
        } else if k > 0 {
        } else {
            lemma_binomial_edges(pre.len(), 0);
        }
    }
}

/// The subset with rank `i` has `n` entries, of which `k` are chosen.
pub proof fn lemma_get_nck_shape(n: nat, k: nat, i: nat)
    requires
        k <= n,
        i < binomial(n, k),
    ensures
        spec_get_nck(n, k, i).len() == n,
        count_true(spec_get_nck(n, k, i)) == k,
    decreases n,
{
    if n == 0 {
    } else {
        let m = (n - 1) as nat;
        lemma_binomial_edges(m, k);
        lemma_binomial_edges(m, m);
        if k == 0 {
            lemma_get_nck_shape(m, 0, i);
            assert(spec_get_nck(n, k, i).drop_last() =~= spec_get_nck(m, 0, i));
        } else if i >= binomial(m, (k - 1) as nat) {
            let j = (i - binomial(m, (k - 1) as nat)) as nat;
            lemma_get_nck_shape(m, k, j);
            assert(spec_get_nck(n, k, i).drop_last() =~= spec_get_nck(m, k, j));
        } else {
            lemma_get_nck_shape(m, (k - 1) as nat, i);
            assert(spec_get_nck(n, k, i).drop_last() =~= spec_get_nck(m, (k - 1) as nat, i));
        }
    }
}

/// Ranking undoes unranking: for every `k <= n` and every `i < C(n, k)`, the
/// subset with rank `i` is mapped to `i`.
pub proof fn lemma_map_get_nck(n: nat, k: nat, i: nat)
    requires
        k <= n,
        i < binomial(n, k),
    ensures
        spec_map_nck(spec_get_nck(n, k, i)) == i,
    decreases n,
{
    if n == 0 {
        lemma_binomial_edges(0, 0);
    } else {
        let m = (n - 1) as nat;
        lemma_binomial_edges(m, k);
        lemma_binomial_edges(m, m);
        let v = spec_get_nck(n, k, i);
        if k == 0 {
            lemma_map_get_nck(m, 0, i);
            lemma_get_nck_shape(m, 0, i);
            assert(v.drop_last() =~= spec_get_nck(m, 0, i));
        } else if i >= binomial(m, (k - 1) as nat) {
            let j = (i - binomial(m, (k - 1) as nat)) as nat;
            lemma_map_get_nck(m, k, j);
            lemma_get_nck_shape(m, k, j);
            assert(v.drop_last() =~= spec_get_nck(m, k, j));
        } else {
            lemma_map_get_nck(m, (k - 1) as nat, i);
            lemma_get_nck_shape(m, (k - 1) as nat, i);
            assert(v.drop_last() =~= spec_get_nck(m, (k - 1) as nat, i));
        }
    }
}

/// Unranking undoes ranking: every sequence is the subset that has its
/// length, its number of chosen elements and its rank.
pub proof fn lemma_get_map_nck(v: Seq<bool>)
    ensures
        spec_get_nck(v.len(), count_true(v), spec_map_nck(v)) == v,
    decreases v.len(),
{
    if v.len() == 0 {
        assert(v =~= Seq::<bool>::empty());
    } else {
        let pre = v.drop_last();
        lemma_get_map_nck(pre);
        lemma_map_nck_bound(pre);
        lemma_binomial_edges(pre.len(), 0);
        assert(v =~= pre.push(v.last()));
    }
}

/// With nothing to choose, nothing is chosen.
pub proof fn lemma_get_nck_none(n: nat, i: nat)
    ensures
        spec_get_nck(n, 0, i).len() == n,
        forall|j: int| 0 <= j < n ==> !(#[trigger] spec_get_nck(n, 0, i)[j]),
    decreases n,
{
    if n > 0 {
        lemma_get_nck_none((n - 1) as nat, i);
    }
}

/// Maps a subset of `0..n`, given as the sequence that says of each element
/// whether it is chosen, to its rank among the subsets of its size: a
/// number below `C(n, k)` for `k` chosen elements.
///
/// Runs in `O(n)`.
pub fn map_nck(v: &Vec<bool>) -> (x: usize)
    requires
        v.len() <= MAX_LEN,
    ensures
        x == spec_map_nck(v@),
        x < binomial(v.len() as nat, count_true(v@)),
{
    let mut x: usize = 0;
    let mut k: usize = 0;
    let mut n: usize = 0;
    proof {
        assert(v@.take(0) =~= Seq::<bool>::empty());
    }
    while n < v.len()
        invariant
            n <= v.len() <= MAX_LEN,
            k == count_true(v@.take(n as int)),
            x == spec_map_nck(v@.take(n as int)),
        decreases v.len() - n,
    {
        let ghost pre = v@.take(n as int);
        let ghost cur = v@.take(n + 1);
        proof {
            assert(cur.drop_last() =~= pre);
            assert(cur.last() == v@[n as int]);
            lemma_count_true_bound(pre);
            lemma_map_nck_bound(cur);
            lemma_count_true_bound(cur);
            lemma_binomial_bound(cur.len(), count_true(cur));
            lemma_factorial_increases(cur.len(), MAX_LEN as nat);
            lemma_factorial_table();
            assert(FAC@[12] == factorial(12));
        }
        if v[n] {
            k += 1;
        } else if k > 0 {
            x += n_choose_k(n, k - 1);
        }
        n += 1;
    }
    proof {
        assert(v@.take(v.len() as int) =~= v@);
        lemma_map_nck_bound(v@);
    }
    x
}

/// Returns the `i`-th subset of `0..n` with `k` elements, as the sequence
/// that says of each element whether it is chosen: the one that
/// [`map_nck`] maps to `i`.
///
/// Runs in `O(n)`.
pub fn get_nck(n: usize, k: usize, i: usize) -> (out: Vec<bool>)
    requires
        k <= n <= MAX_LEN,
        i < binomial(n as nat, k as nat),
    ensures
        out@ == spec_get_nck(n as nat, k as nat, i as nat),
        out.len() == n,
        count_true(out@) == k,
        spec_map_nck(out@) == i,
{
    let mut out: Vec<bool> = Vec::new();
    let mut j: usize = 0;
    while j < n
        invariant
            j <= n,
            out.len() == j,
            forall|t: int| 0 <= t < j ==> !(#[trigger] out@[t]),
        decreases n - j,
    {
        out.push(false);
        j += 1;
    }
    let mut x = i;
    let mut left = k;
    let mut pos = n;
    proof {
        assert(out@.skip(n as int) =~= Seq::<bool>::empty());
        assert(spec_get_nck(n as nat, k as nat, i as nat) + out@.skip(n as int)
            =~= spec_get_nck(n as nat, k as nat, i as nat));
    }
    while pos > 0 && left > 0
        invariant
            left <= pos <= n <= MAX_LEN,
            out.len() == n,
            x < binomial(pos as nat, left as nat),
            forall|t: int| 0 <= t < pos ==> !(#[trigger] out@[t]),
            spec_get_nck(n as nat, k as nat, i as nat) == spec_get_nck(
                pos as nat,
                left as nat,
                x as nat,
            ) + out@.skip(pos as int),
        decreases pos,
    {
        let ghost before = out@;
        let ghost whole = spec_get_nck(pos as nat, left as nat, x as nat);
        pos -= 1;
        let nck = n_choose_k(pos, left - 1);
        proof {
            lemma_binomial_edges(pos as nat, left as nat);
            lemma_binomial_edges(pos as nat, pos as nat);
        }
        if x >= nck {
            x -= nck;
        } else {
            out.set(pos, true);
            left -= 1;
        }
        proof {
            let rest = spec_get_nck(pos as nat, left as nat, x as nat);
            assert(whole == rest.push(out@[pos as int]));
            assert(out@.skip(pos as int) =~= seq![out@[pos as int]] + before.skip(pos + 1));
            assert(whole + before.skip(pos + 1) =~= rest + out@.skip(pos as int));
        }
    }
    proof {
        if left == 0 {
            lemma_get_nck_none(pos as nat, x as nat);
        }
        assert(spec_get_nck(pos as nat, left as nat, x as nat) =~= out@.take(pos as int));
        assert(out@.take(pos as int) + out@.skip(pos as int) =~= out@);
        lemma_get_nck_shape(n as nat, k as nat, i as nat);
        lemma_map_get_nck(n as nat, k as nat, i as nat);
    }
    out
}

/// A subset that holds the last elements, and no element before one that it
/// leaves out, has rank 0.
pub proof fn lemma_map_nck_last(v: Seq<bool>)
    requires
        forall|i: int, j: int| 0 <= i < j < v.len() && #[trigger] v[i] ==> #[trigger] v[j],
    ensures
        spec_map_nck(v) == 0,
        !v.last() ==> count_true(v) == 0,
    decreases v.len(),
{
    if v.len() > 0 {
        let pre = v.drop_last();
        lemma_map_nck_last(pre);
        if !v.last() && pre.len() > 0 {
            if pre.last() {
                assert(v[pre.len() - 1] ==> v[v.len() - 1]);
            }
        }
    }
}

} // verus!
