//! Sums of sequences, and properties of the first numbers, taken one after
//! the other.

use crate::math::permutation::{
    is_permutation, lemma_count_less_absent, lemma_count_less_ascending, lemma_permutation_counts,
};
use vstd::prelude::*;

verus! {

/// Two sequences of eight entries that agree at every place are equal.
pub proof fn lemma_equal_8(a: Seq<usize>, b: Seq<usize>)
    requires
        a.len() == 8,
        b.len() == 8,
        a[0] == b[0],
        a[1] == b[1],
        a[2] == b[2],
        a[3] == b[3],
        a[4] == b[4],
        a[5] == b[5],
        a[6] == b[6],
        a[7] == b[7],
    ensures
        a == b,
{
    assert forall|i: int| 0 <= i < 8 implies a[i] == b[i] by {
        if i == 0 {
        } else if i == 1 {
        } else if i == 2 {
        } else if i == 3 {
        } else if i == 4 {
        } else if i == 5 {
        } else if i == 6 {
        } else {
        }
    }
    assert(a =~= b);
}

/// Two sequences of twelve entries that agree at every place are equal.
pub proof fn lemma_equal_12(a: Seq<usize>, b: Seq<usize>)
    requires
        a.len() == 12,
        b.len() == 12,
        a[0] == b[0],
        a[1] == b[1],
        a[2] == b[2],
        a[3] == b[3],
        a[4] == b[4],
        a[5] == b[5],
        a[6] == b[6],
        a[7] == b[7],
        a[8] == b[8],
        a[9] == b[9],
        a[10] == b[10],
        a[11] == b[11],
    ensures
        a == b,
{
    assert forall|i: int| 0 <= i < 12 implies a[i] == b[i] by {
        if i == 0 {
        } else if i == 1 {
        } else if i == 2 {
        } else if i == 3 {
        } else if i == 4 {
        } else if i == 5 {
        } else if i == 6 {
        } else if i == 7 {
        } else if i == 8 {
        } else if i == 9 {
        } else if i == 10 {
        } else {
        }
    }
    assert(a =~= b);
}

/// The sum of the entries.
pub open spec fn seq_sum(s: Seq<int>) -> int
    decreases s.len(),
{
    if s.len() == 0 {
        0
    } else {
        seq_sum(s.drop_last()) + s.last()
    }
}

/// Taking one entry out of a sequence takes it out of the sum.
pub proof fn lemma_seq_sum_remove(s: Seq<int>, k: int)
    requires
        0 <= k < s.len(),
    ensures
        seq_sum(s) == s[k] + seq_sum(s.remove(k)),
    decreases s.len(),
{
    if k == s.len() - 1 {
        assert(s.remove(k) =~= s.drop_last());
    } else {
        lemma_seq_sum_remove(s.drop_last(), k);
        assert(s.remove(k).drop_last() =~= s.drop_last().remove(k));
        assert(s.remove(k).last() == s.last());
    }
}

/// Sequences whose entries agree modulo `m`, place by place, have sums that
/// agree modulo `m`.
pub proof fn lemma_seq_sum_mod(a: Seq<int>, b: Seq<int>, m: int)
    requires
        m > 0,
        a.len() == b.len(),
        forall|i: int| 0 <= i < a.len() ==> #[trigger] a[i] % m == b[i] % m,
    ensures
        seq_sum(a) % m == seq_sum(b) % m,
    decreases a.len(),
{
    if a.len() > 0 {
        lemma_seq_sum_mod(a.drop_last(), b.drop_last(), m);
        assert(a.last() % m == b.last() % m);
        vstd::arithmetic::div_mod::lemma_add_mod_noop(seq_sum(a.drop_last()), a.last(), m);
        vstd::arithmetic::div_mod::lemma_add_mod_noop(seq_sum(b.drop_last()), b.last(), m);
    }
}

/// The sum of the sums, place by place, is the sum of the two sums.
pub proof fn lemma_seq_sum_add(a: Seq<int>, b: Seq<int>)
    requires
        a.len() == b.len(),
    ensures
        seq_sum(Seq::new(a.len(), |i: int| a[i] + b[i])) == seq_sum(a) + seq_sum(b),
    decreases a.len(),
{
    let s = Seq::new(a.len(), |i: int| a[i] + b[i]);
    if a.len() > 0 {
        lemma_seq_sum_add(a.drop_last(), b.drop_last());
        assert(s.drop_last() =~= Seq::new(
            a.drop_last().len(),
            |i: int| a.drop_last()[i] + b.drop_last()[i],
        ));
    }
}

/// A sum does not depend on the order of its terms: going through a
/// sequence by a permutation of its places gives the same sum.
pub proof fn lemma_seq_sum_permuted(f: Seq<int>, p: Seq<usize>)
    requires
        is_permutation(p),
        p.len() == f.len(),
        p.len() <= usize::MAX,
    ensures
        seq_sum(Seq::new(f.len(), |i: int| f[p[i] as int])) == seq_sum(f),
    decreases f.len(),
{
    let n = f.len();
    let g = Seq::new(n, |i: int| f[p[i] as int]);
    if n > 0 {
        let top = (n - 1) as int;
        // the place at which the permutation names the last entry
        lemma_permutation_counts(p, top);
        lemma_permutation_counts(p, top + 1);
        lemma_count_less_ascending(n, top);
        lemma_count_less_ascending(n, top + 1);
        if forall|i: int| 0 <= i < n ==> #[trigger] p[i] != top {
            lemma_count_less_absent(p, top);
        }
        let k = choose|i: int| 0 <= i < n && #[trigger] p[i] == top;
        let pa = p.remove(k);
        let f1 = f.drop_last();
        assert(is_permutation(pa)) by {
            assert forall|i: int| 0 <= i < pa.len() implies #[trigger] pa[i] < pa.len() by {
                let i0 = if i < k {
                    i
                } else {
                    i + 1
                };
                assert(pa[i] == p[i0]);
                assert(p[i0] < n);
                if i0 < k {
                    assert(p[i0] != p[k]);
                } else {
                    assert(p[k] != p[i0]);
                }
            }
            assert forall|i: int, j: int| 0 <= i < j < pa.len() implies #[trigger] pa[i]
                != #[trigger] pa[j] by {
                let i0 = if i < k {
                    i
                } else {
                    i + 1
                };
                let j0 = if j < k {
                    j
                } else {
                    j + 1
                };
                assert(p[i0] != p[j0]);
            }
        }
        lemma_seq_sum_permuted(f1, pa);
        lemma_seq_sum_remove(g, k);
        assert(g.remove(k) =~= Seq::new(f1.len(), |i: int| f1[pa[i] as int])) by {
            assert forall|i: int| 0 <= i < n - 1 implies g.remove(k)[i] == f1[pa[i] as int] by {
                assert(pa[i] < pa.len());
            }
        }
    }
}

/// Whether a property holds of `0`, of `1`, and so on up to `n - 1`, one
/// after the other.
pub open spec fn holds_below(p: spec_fn(int) -> bool, n: int) -> bool
    decreases n,
{
    n <= 0 || (p(n - 1) && holds_below(p, n - 1))
}

/// What holds of every number below `n`, one after the other, holds of all
/// of them.
pub proof fn lemma_holds_below(p: spec_fn(int) -> bool, n: int)
    requires
        holds_below(p, n),
    ensures
        forall|i: int| 0 <= i < n ==> #[trigger] p(i),
    decreases n,
{
    if n > 0 {
        lemma_holds_below(p, n - 1);
    }
}

} // verus!
