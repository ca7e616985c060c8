//! Inversions of a sequence, and how exchanging entries changes their
//! number.

use crate::math::permutation::{count_less, lemma_count_less_bounds, lemma_count_less_update};
use vstd::prelude::*;

verus! {

/// The number of inversions of a sequence: the pairs of places at which the
/// earlier entry is the larger one.
pub open spec fn inversions(p: Seq<usize>) -> nat
    decreases p.len(),
{
    if p.len() == 0 {
        0
    } else {
        count_less(p.skip(1), p[0] as int) + inversions(p.skip(1))
    }
}

/// A sequence of length `n` has at most `n * n` inversions.
pub proof fn lemma_inversions_bound(p: Seq<usize>)
    ensures
        inversions(p) <= p.len() * p.len(),
    decreases p.len(),
{
    if p.len() > 0 {
        let t = p.skip(1);
        lemma_inversions_bound(t);
        lemma_count_less_bounds(t, p[0] as int, p[0] as int);
        assert(t.len() + t.len() * t.len() <= p.len() * p.len()) by (nonlinear_arith)
            requires
                p.len() == t.len() + 1,
        ;
    }
}

/// Counts the inversions of a sequence.
///
/// Runs in `O(n^2)`.
pub fn count_inversions(perm: &Vec<usize>) -> (res: usize)
    requires
        perm.len() <= 0xffff,
    ensures
        res == inversions(perm@),
{
    let n = perm.len();
    let mut res: usize = 0;
    let mut i: usize = n;
    proof {
        assert(perm@.skip(n as int) =~= Seq::<usize>::empty());
    }
    while i > 0
        invariant
            i <= n,
            n == perm.len(),
            n <= 0xffff,
            res == inversions(perm@.skip(i as int)),
        decreases i,
    {
        i -= 1;
        let ghost here = perm@.skip(i as int);
        let ghost later = perm@.skip(i + 1);
        let v = perm[i];
        let mut cnt: usize = 0;
        let mut j: usize = n;
        proof {
            assert(here.skip(1) =~= later);
            lemma_inversions_bound(here);
            lemma_inversions_bound(later);
            assert(here.len() * here.len() <= 0xffff * 0xffff) by (nonlinear_arith)
                requires
                    here.len() <= 0xffff,
            ;
        }
        while j > i + 1
            invariant
                i < j <= n,
                n == perm.len(),
                cnt == count_less(perm@.skip(j as int), v as int),
                cnt <= n - j,
            decreases j,
        {
            j -= 1;
            proof {
                assert(perm@.skip(j as int).skip(1) =~= perm@.skip(j + 1));
            }
            if perm[j] < v {
                cnt += 1;
            }
        }
        res = res + cnt;
    }
    proof {
        assert(perm@.skip(0) =~= perm@);
    }
    res
}

/// The sequence with the entries at the places `a` and `b` exchanged.
pub open spec fn exchange(s: Seq<usize>, a: int, b: int) -> Seq<usize> {
    s.update(a, s[b]).update(b, s[a])
}

/// Exchanging two entries changes no count.
pub proof fn lemma_count_less_exchange(s: Seq<usize>, a: int, b: int, v: int)
    requires
        0 <= a < s.len(),
        0 <= b < s.len(),
    ensures
        count_less(exchange(s, a, b), v) == count_less(s, v),
{
    lemma_count_less_update(s, a, s[b], v);
    lemma_count_less_update(s.update(a, s[b]), b, s[a], v);
}

/// Exchanging two neighbours that differ adds or removes one inversion.
pub proof fn lemma_inversions_exchange_neighbours(s: Seq<usize>, k: int)
    requires
        0 <= k,
        k + 1 < s.len(),
        s[k] != s[k + 1],
    ensures
        s[k] < s[k + 1] ==> inversions(exchange(s, k, k + 1)) == inversions(s) + 1,
        s[k] > s[k + 1] ==> inversions(exchange(s, k, k + 1)) == inversions(s) - 1,
    decreases k,
{
    let t = exchange(s, k, k + 1);
    if k == 0 {
        let r = s.skip(1).skip(1);
        assert(t.skip(1).skip(1) =~= r);
        assert(s.skip(1)[0] == s[1]);
        assert(t.skip(1)[0] == s[0]);
        assert(t[0] == s[1]);
        reveal_with_fuel(inversions, 2);
        reveal_with_fuel(count_less, 2);
    } else {
        lemma_inversions_exchange_neighbours(s.skip(1), k - 1);
        assert(t.skip(1) =~= exchange(s.skip(1), k - 1, k));
        lemma_count_less_exchange(s.skip(1), k - 1, k, s[0] as int);
    }
}

/// Exchanging two entries of a sequence in which no value stands twice
/// changes the parity of the number of inversions.
pub proof fn lemma_inversions_exchange(s: Seq<usize>, a: int, b: int)
    requires
        0 <= a < b < s.len(),
        forall|i: int, j: int| 0 <= i < j < s.len() ==> #[trigger] s[i] != #[trigger] s[j],
    ensures
        (inversions(exchange(s, a, b)) + inversions(s)) % 2 == 1,
    decreases b - a,
{
    if b == a + 1 {
        lemma_inversions_exchange_neighbours(s, a);
    } else {
        let sa = exchange(s, b - 1, b);
        let sb = exchange(sa, a, b - 1);
        let sc = exchange(sb, b - 1, b);
        assert(s[b - 1] != s[b]);
        lemma_inversions_exchange_neighbours(s, b - 1);
        assert forall|i: int, j: int| 0 <= i < j < sa.len() implies #[trigger] sa[i] != #[trigger] sa[j] by {
            let i0 = if i == b - 1 {
                b
            } else if i == b {
                b - 1
            } else {
                i
            };
            let j0 = if j == b - 1 {
                b
            } else if j == b {
                b - 1
            } else {
                j
            };
            if i0 < j0 {
                assert(s[i0] != s[j0]);
            } else {
                assert(s[j0] != s[i0]);
            }
        }
        lemma_inversions_exchange(sa, a, b - 1);
        assert(sb[b - 1] == s[a]);
        assert(sb[b] == s[b - 1]);
        assert(s[a] != s[b - 1]);
        lemma_inversions_exchange_neighbours(sb, b - 1);
        assert(sc =~= exchange(s, a, b));
    }
}

/// The sequence with the entries at four places moved round in a circle:
/// the first place takes the entry of the second, the second that of the
/// third, the third that of the fourth and the fourth that of the first.
pub open spec fn four_cycle(p: Seq<usize>, i0: int, i1: int, i2: int, i3: int) -> Seq<usize> {
    exchange(exchange(exchange(p, i0, i1), i1, i2), i2, i3)
}

/// Moving the entries at four places round in a circle, in a sequence in
/// which no value stands twice, changes the parity of the number of
/// inversions: it takes three exchanges.
pub proof fn lemma_inversions_four_cycle(p: Seq<usize>, i0: int, i1: int, i2: int, i3: int)
    requires
        forall|i: int, j: int| 0 <= i < j < p.len() ==> #[trigger] p[i] != #[trigger] p[j],
        0 <= i0 < p.len(),
        0 <= i1 < p.len(),
        0 <= i2 < p.len(),
        0 <= i3 < p.len(),
        i0 != i1 && i1 != i2 && i2 != i3,
    ensures
        (inversions(four_cycle(p, i0, i1, i2, i3)) + inversions(p)) % 2 == 1,
{
    let sa = exchange(p, i0, i1);
    let sb = exchange(sa, i1, i2);
    lemma_exchange_any(p, i0, i1);
    lemma_exchange_any(sa, i1, i2);
    lemma_exchange_any(sb, i2, i3);
}

/// [`lemma_inversions_exchange`] for two places in either order; the
/// exchange leaves no value standing twice.
proof fn lemma_exchange_any(s: Seq<usize>, a: int, b: int)
    requires
        0 <= a < s.len(),
        0 <= b < s.len(),
        a != b,
        forall|i: int, j: int| 0 <= i < j < s.len() ==> #[trigger] s[i] != #[trigger] s[j],
    ensures
        (inversions(exchange(s, a, b)) + inversions(s)) % 2 == 1,
        forall|i: int, j: int|
            0 <= i < j < s.len() ==> #[trigger] exchange(s, a, b)[i] != #[trigger] exchange(
                s,
                a,
                b,
            )[j],
{
    let t = exchange(s, a, b);
    if a < b {
        lemma_inversions_exchange(s, a, b);
    } else {
        lemma_inversions_exchange(s, b, a);
        assert(exchange(s, b, a) =~= t);
    }
    assert forall|i: int, j: int| 0 <= i < j < s.len() implies #[trigger] t[i] != #[trigger] t[j] by {
        let i0 = if i == a {
            b
        } else if i == b {
            a
        } else {
            i
        };
        let j0 = if j == a {
            b
        } else if j == b {
            a
        } else {
            j
        };
        if i0 < j0 {
            assert(s[i0] != s[j0]);
        } else {
            assert(s[j0] != s[i0]);
        }
    }
}

} // verus!
