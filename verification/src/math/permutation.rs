//! The ranking of permutations in the factorial number system, and its
//! inverse.

use crate::math::{factorial, lemma_factorial_increases, lemma_factorial_table, FAC, MAX_LEN};
use vstd::arithmetic::div_mod::lemma_fundamental_div_mod_converse;
use vstd::prelude::*;

verus! {

/// The number of entries of `s` that are smaller than `v`.
pub open spec fn count_less(s: Seq<usize>, v: int) -> nat
    decreases s.len(),
{
    if s.len() == 0 {
        0
    } else {
        (if s[0] < v {
            1nat
        } else {
            0nat
        }) + count_less(s.skip(1), v)
    }
}

/// The rank of a sequence in the factorial number system: every entry
/// counts the later entries that are smaller than it, and that count
/// weighs the factorial of the number of later entries.  On the
/// permutations of `0..n` this is the place of the permutation in
/// lexicographic order.
pub open spec fn spec_map_permutation(p: Seq<usize>) -> nat
    decreases p.len(),
{
    if p.len() == 0 {
        0
    } else {
        count_less(p.skip(1), p[0] as int) * factorial((p.len() - 1) as nat) + spec_map_permutation(
            p.skip(1),
        )
    }
}

/// Every entry is below the length and no value occurs twice: the sequence
/// is a permutation of `0..n`.
pub open spec fn is_permutation(p: Seq<usize>) -> bool {
    &&& forall|i: int| 0 <= i < p.len() ==> #[trigger] p[i] < p.len()
    &&& forall|i: int, j: int| 0 <= i < j < p.len() ==> #[trigger] p[i] != #[trigger] p[j]
}

/// No more entries are smaller than `v` than there are entries, and fewer
/// are smaller than a smaller bound.
pub proof fn lemma_count_less_bounds(s: Seq<usize>, a: int, b: int)
    requires
        a <= b,
    ensures
        count_less(s, a) <= count_less(s, b) <= s.len(),
        a <= 0 ==> count_less(s, a) == 0,
    decreases s.len(),
{
    if s.len() > 0 {
        lemma_count_less_bounds(s.skip(1), a, b);
    }
}

/// The rank of a sequence of length `n` is below `n!`.
pub proof fn lemma_map_permutation_bound(p: Seq<usize>)
    ensures
        spec_map_permutation(p) < factorial(p.len()),
    decreases p.len(),
{
    if p.len() > 0 {
        let t = p.skip(1);
        lemma_map_permutation_bound(t);
        lemma_count_less_bounds(t, p[0] as int, p[0] as int);
        let c = count_less(t, p[0] as int);
        let f = factorial(t.len());
        assert(c * f + spec_map_permutation(t) < p.len() * f) by (nonlinear_arith)
            requires
                c <= t.len(),
                spec_map_permutation(t) < f,
                p.len() == t.len() + 1,
        ;
    }
}

/// The lowest bit that is set in `v`.
pub open spec fn low_bit(v: usize) -> usize {
    v & !((v - 1) as usize)
}

/// The lowest bit of a positive number is positive and no larger than the
/// number.
proof fn lemma_low_bit_range(v: usize)
    by (bit_vector)
    requires
        1 <= v,
    ensures
        1 <= low_bit(v) <= v,
{
}

/// Between a node of the tree and its parent no node covers the values that
/// the node covers.
proof fn lemma_low_bit_between(x: usize, u: usize, w: usize)
    by (bit_vector)
    requires
        1 <= x <= u,
        u <= 0xffff,
        u - low_bit(u) < x,
        u < w,
        w < u + low_bit(u),
    ensures
        w - low_bit(w) >= x,
{
}

/// The parent of a node covers the values that the node covers.
proof fn lemma_low_bit_parent(x: usize, u: usize)
    by (bit_vector)
    requires
        1 <= x <= u,
        u <= 0xffff,
        u - low_bit(u) < x,
    ensures
        (u + low_bit(u)) - low_bit((u + low_bit(u)) as usize) < x,
{
}

/// The tree holds, at node 0, the number of inserted values equal to 0,
/// and at a node `w >= 1` the number of inserted values `x` with
/// `w - low_bit(w) < x <= w`.
spec fn fenwick_holds(fenw: Seq<usize>, s: Seq<usize>) -> bool {
    &&& fenw.len() > 0 ==> fenw[0] == count_less(s, 1)
    &&& forall|w: int|
        1 <= w < fenw.len() ==> #[trigger] fenw[w] == count_less(s, w + 1) - count_less(
            s,
            w - low_bit(w as usize) + 1,
        )
}

/// The lowest bit that is set in `v`.
fn lowest_bit(v: usize) -> (b: usize)
    requires
        1 <= v,
    ensures
        b == low_bit(v),
        1 <= b <= v,
{
    proof {
        lemma_low_bit_range(v);
    }
    v & !(v - 1)
}

/// The number of inserted values that are at most `v`.
fn fenwick_prefix(fenw: &Vec<usize>, v: usize, Ghost(s): Ghost<Seq<usize>>) -> (cnt: usize)
    requires
        fenwick_holds(fenw@, s),
        v < fenw.len(),
        s.len() < 0xffff,
    ensures
        cnt == count_less(s, v + 1),
{
    let mut cnt = fenw[0];
    let mut u = v;
    proof {
        lemma_count_less_bounds(s, 1, v + 1);
    }
    while u != 0
        invariant
            fenwick_holds(fenw@, s),
            u <= v < fenw.len(),
            s.len() < 0xffff,
            count_less(s, v + 1) <= s.len(),
            cnt == count_less(s, 1) + count_less(s, v + 1) - count_less(s, u + 1),
            count_less(s, 1) <= count_less(s, u + 1) <= count_less(s, v + 1),
        decreases u,
    {
        let b = lowest_bit(u);
        proof {
            lemma_count_less_bounds(s, 1, u - b + 1);
            lemma_count_less_bounds(s, u - b + 1, u + 1);
            lemma_count_less_bounds(s, v + 1, v + 1);
        }
        cnt = cnt + fenw[u];
        u = u - b;
    }
    cnt
}

/// Inserts the value `x` into the tree.
fn fenwick_add(fenw: &mut Vec<usize>, x: usize, Ghost(s): Ghost<Seq<usize>>)
    requires
        fenwick_holds(old(fenw)@, s),
        x < old(fenw).len() <= 0xffff,
        s.len() < 0xffff,
    ensures
        fenwick_holds(final(fenw)@, seq![x] + s),
        final(fenw).len() == old(fenw).len(),
{
    let n = fenw.len();
    let ghost sa = seq![x] + s;
    proof {
        assert(sa.skip(1) =~= s);
        assert(sa[0] == x);
        assert forall|t: int| count_less(sa, t) == count_less(s, t) + (if x < t {
            1nat
        } else {
            0nat
        }) by {}
        assert forall|t: int| count_less(s, t) <= s.len() by {
            lemma_count_less_bounds(s, t, t);
        }
    }
    if x == 0 {
        let c = fenw[0];
        fenw.set(0, c + 1);
        assert forall|w: int| 1 <= w < fenw.len() implies #[trigger] fenw@[w] == count_less(
            sa,
            w + 1,
        ) - count_less(sa, w - low_bit(w as usize) + 1) by {
            lemma_low_bit_range(w as usize);
        }
        assert(fenwick_holds(fenw@, sa));
    } else {
        let mut u = x;
        proof {
            lemma_low_bit_range(x);
        }
        while u < n
            invariant
                1 <= x <= u,
                n == fenw.len(),
                n <= 0xffff,
                s.len() < 0xffff,
                sa == seq![x] + s,
                forall|t: int| #[trigger] count_less(sa, t) == count_less(s, t) + (if x < t {
                    1nat
                } else {
                    0nat
                }),
                forall|t: int| #[trigger] count_less(s, t) <= s.len(),
                u < n ==> u - low_bit(u) < x,
                fenw@[0] == count_less(sa, 1),
                forall|w: int|
                    1 <= w < n && w < u ==> #[trigger] fenw@[w] == count_less(sa, w + 1)
                        - count_less(sa, w - low_bit(w as usize) + 1),
                forall|w: int|
                    1 <= w < n && u <= w ==> #[trigger] fenw@[w] == count_less(s, w + 1)
                        - count_less(s, w - low_bit(w as usize) + 1),
            decreases 2 * n - u,
        {
            let b = lowest_bit(u);
            let c = fenw[u];
            let ghost before = fenw@;
            fenw.set(u, c + 1);
            proof {
                lemma_low_bit_parent(x, u);
                assert forall|w: int| 1 <= w < n && w < u + b implies #[trigger] fenw@[w]
                    == count_less(sa, w + 1) - count_less(sa, w - low_bit(w as usize) + 1) by {
                    if w > u {
                        lemma_low_bit_between(x, u, w as usize);
                        assert(fenw@[w] == before[w]);
                    } else if w < u {
                        assert(fenw@[w] == before[w]);
                    }
                }
            }
            u = u + b;
        }
        assert(fenwick_holds(fenw@, sa));
    }
}

/// Maps a sequence to its rank in the factorial number system.  The
/// entries must be below the length, which is at most 12.  On the
/// permutations of `0..n` the rank is the place of the permutation in
/// lexicographic order, from `0` for the ascending one to `n! - 1` for the
/// descending one.
///
/// Runs in `O(n log n)` with a Fenwick tree over the values.
pub fn map_permutation(perm: &Vec<usize>) -> (x: usize)
    requires
        perm.len() <= MAX_LEN,
        forall|i: int| 0 <= i < perm.len() ==> #[trigger] perm[i] < perm.len(),
    ensures
        x == spec_map_permutation(perm@),
        x < factorial(perm.len() as nat),
{
    let n = perm.len();
    let mut fenw: Vec<usize> = Vec::new();
    let mut k: usize = 0;
    while k < n
        invariant
            k <= n,
            fenw.len() == k,
            forall|w: int| 0 <= w < k ==> #[trigger] fenw@[w] == 0,
        decreases n - k,
    {
        fenw.push(0);
        k += 1;
    }
    let mut x: usize = 0;
    let mut i: usize = n;
    proof {
        assert(perm@.skip(n as int) =~= Seq::<usize>::empty());
        assert(fenwick_holds(fenw@, perm@.skip(n as int)));
    }
    while i > 0
        invariant
            i <= n,
            n == perm.len(),
            n <= MAX_LEN,
            fenw.len() == n,
            forall|j: int| 0 <= j < perm.len() ==> #[trigger] perm[j] < perm.len(),
            fenwick_holds(fenw@, perm@.skip(i as int)),
            x == spec_map_permutation(perm@.skip(i as int)),
        decreases i,
    {
        i -= 1;
        let ele = perm[i];
        let ghost later = perm@.skip(i as int + 1);
        let ghost here = perm@.skip(i as int);
        let cnt = if ele == 0 {
            0
        } else {
            fenwick_prefix(&fenw, ele - 1, Ghost(later))
        };
        fenwick_add(&mut fenw, ele, Ghost(later));
        proof {
            assert(here.skip(1) =~= later);
            assert(here =~= seq![ele] + later);
            assert(here[0] == ele);
            lemma_count_less_bounds(later, ele as int, ele as int);
            lemma_map_permutation_bound(later);
            lemma_map_permutation_bound(here);
            lemma_factorial_table();
            lemma_factorial_increases(here.len(), MAX_LEN as nat);
            assert(FAC@[n - 1 - i] == factorial(later.len()));
            assert(FAC@[n - 1 - i] * cnt == cnt * factorial(later.len())) by (nonlinear_arith)
                requires
                    FAC@[n - 1 - i] == factorial(later.len()),
            ;
        }
        x = x + FAC[n - 1 - i] * cnt;
    }
    proof {
        assert(perm@.skip(0) =~= perm@);
        lemma_map_permutation_bound(perm@);
    }
    x
}

/// Every entry is smaller than the entries after it.
pub open spec fn strictly_increasing(s: Seq<usize>) -> bool {
    forall|i: int, j: int| 0 <= i < j < s.len() ==> #[trigger] s[i] < #[trigger] s[j]
}

/// The sequence `0, 1, .., n - 1`.
pub open spec fn ascending(n: nat) -> Seq<usize> {
    Seq::new(n, |i: int| i as usize)
}

/// The arrangement of the entries of `rem` that has rank `k`, for `k` below
/// the factorial of their number: the leading digit of `k` in the factorial
/// number system picks the first entry among those that remain, and the
/// rest of `k` arranges the others.
pub open spec fn spec_arrange(rem: Seq<usize>, k: nat) -> Seq<usize>
    decreases rem.len(),
{
    let f = factorial((rem.len() - 1) as nat);
    let d = (k / f) as int;
    if 0 <= d < rem.len() {
        seq![rem[d]] + spec_arrange(rem.remove(d), k % f)
    } else {
        rem
    }
}

/// The permutation of `0..n` that has rank `k`: the `k`-th in lexicographic
/// order.
pub open spec fn spec_get_kth_perm(n: nat, k: nat) -> Seq<usize> {
    spec_arrange(ascending(n), k)
}

/// The leading digit of a number below `n!` in the factorial number system
/// is below `n`, and the rest is below `(n - 1)!`.
pub proof fn lemma_factorial_digit(n: nat, k: nat)
    requires
        n > 0,
        k < factorial(n),
    ensures
        0 <= k / factorial((n - 1) as nat) < n,
        0 <= k % factorial((n - 1) as nat) < factorial((n - 1) as nat),
        k == (k / factorial((n - 1) as nat)) * factorial((n - 1) as nat) + k % factorial(
            (n - 1) as nat,
        ),
{
    let f = factorial((n - 1) as nat);
    lemma_factorial_increases((n - 1) as nat, n);
    let d = k / f;
    let r = k % f;
    vstd::arithmetic::div_mod::lemma_fundamental_div_mod(k as int, f as int);
    assert(k == f * d + r);
    assert(d < n) by (nonlinear_arith)
        requires
            k == f * d + r,
            r >= 0,
            k < n * f,
            f >= 1,
            d >= 0,
    ;
    assert(f * d == d * f) by (nonlinear_arith);
}

/// A number `d * f + r` with `r < f` has the quotient `d` and the remainder
/// `r`.
pub proof fn lemma_digit_of_sum(d: nat, f: nat, r: nat)
    requires
        r < f,
    ensures
        (d * f + r) / f == d,
        (d * f + r) % f == r,
{
    lemma_fundamental_div_mod_converse((d * f + r) as int, f as int, d as int, r as int);
}

/// Taking one entry out of a sequence takes it out of the count.
pub proof fn lemma_count_less_remove(s: Seq<usize>, d: int, v: int)
    requires
        0 <= d < s.len(),
    ensures
        count_less(s, v) == count_less(s.remove(d), v) + (if s[d] < v {
            1nat
        } else {
            0nat
        }),
    decreases s.len(),
{
    if d == 0 {
        assert(s.remove(0) =~= s.skip(1));
    } else {
        lemma_count_less_remove(s.skip(1), d - 1, v);
        assert(s.remove(d).skip(1) =~= s.skip(1).remove(d - 1));
        assert(s.remove(d)[0] == s[0]);
    }
}

/// In an increasing sequence nothing is smaller than a bound that the first
/// entry reaches.
pub proof fn lemma_count_less_none(s: Seq<usize>, v: int)
    requires
        strictly_increasing(s),
        s.len() > 0 ==> v <= s[0],
    ensures
        count_less(s, v) == 0,
    decreases s.len(),
{
    if s.len() > 0 {
        let t = s.skip(1);
        assert forall|i: int, j: int| 0 <= i < j < t.len() implies #[trigger] t[i] < #[trigger] t[j] by {
            assert(s[i + 1] < s[j + 1]);
        }
        if t.len() > 0 {
            assert(s[0] < s[1]);
        }
        lemma_count_less_none(t, v);
    }
}

/// In an increasing sequence the entries smaller than the one at place `d`
/// are the `d` entries before it.
pub proof fn lemma_count_less_increasing(s: Seq<usize>, d: int)
    requires
        strictly_increasing(s),
        0 <= d < s.len(),
    ensures
        count_less(s, s[d] as int) == d,
    decreases s.len(),
{
    let t = s.skip(1);
    assert forall|i: int, j: int| 0 <= i < j < t.len() implies #[trigger] t[i] < #[trigger] t[j] by {
        assert(s[i + 1] < s[j + 1]);
    }
    if d == 0 {
        if t.len() > 0 {
            assert(s[0] < s[1]);
        }
        lemma_count_less_none(t, s[0] as int);
    } else {
        assert(s[0] < s[d]);
        lemma_count_less_increasing(t, d - 1);
    }
}

/// Taking one entry out of an increasing sequence leaves it increasing.
pub proof fn lemma_remove_increasing(s: Seq<usize>, d: int)
    requires
        strictly_increasing(s),
        0 <= d < s.len(),
    ensures
        strictly_increasing(s.remove(d)),
{
    let t = s.remove(d);
    assert forall|i: int, j: int| 0 <= i < j < t.len() implies #[trigger] t[i] < #[trigger] t[j] by {
        let a = if i < d {
            i
        } else {
            i + 1
        };
        let b = if j < d {
            j
        } else {
            j + 1
        };
        assert(s[a] < s[b]);
    }
}

/// An arrangement holds what was arranged: as many entries, and for every
/// bound as many entries below it.
pub proof fn lemma_arrange_counts(rem: Seq<usize>, k: nat, v: int)
    requires
        k < factorial(rem.len()),
    ensures
        spec_arrange(rem, k).len() == rem.len(),
        count_less(spec_arrange(rem, k), v) == count_less(rem, v),
    decreases rem.len(),
{
    if rem.len() > 0 {
        lemma_factorial_digit(rem.len(), k);
        let f = factorial((rem.len() - 1) as nat);
        let d = (k / f) as int;
        let q = spec_arrange(rem, k);
        let t = spec_arrange(rem.remove(d), k % f);
        lemma_arrange_counts(rem.remove(d), k % f, v);
        lemma_count_less_remove(rem, d, v);
        assert(q.skip(1) =~= t);
        assert(q[0] == rem[d]);
    }
}

/// Ranking undoes arranging: the arrangement of an increasing sequence that
/// has rank `k` is mapped to `k`.
pub proof fn lemma_map_arrange(rem: Seq<usize>, k: nat)
    requires
        strictly_increasing(rem),
        k < factorial(rem.len()),
    ensures
        spec_map_permutation(spec_arrange(rem, k)) == k,
    decreases rem.len(),
{
    if rem.len() > 0 {
        lemma_factorial_digit(rem.len(), k);
        let f = factorial((rem.len() - 1) as nat);
        let d = (k / f) as int;
        let q = spec_arrange(rem, k);
        let r = rem.remove(d);
        let t = spec_arrange(r, k % f);
        lemma_remove_increasing(rem, d);
        lemma_map_arrange(r, k % f);
        lemma_arrange_counts(r, k % f, rem[d] as int);
        lemma_count_less_remove(rem, d, rem[d] as int);
        lemma_count_less_increasing(rem, d);
        lemma_arrange_counts(rem, k, 0);
        assert(q.skip(1) =~= t);
        assert(q[0] == rem[d]);
        assert(count_less(t, rem[d] as int) == d);
        assert(factorial((q.len() - 1) as nat) == f);
    }
}

/// A value that stands in a sequence is counted below the next bound.
pub proof fn lemma_count_less_entry(s: Seq<usize>, i: int)
    requires
        0 <= i < s.len(),
    ensures
        count_less(s, s[i] + 1) >= count_less(s, s[i] as int) + 1,
    decreases s.len(),
{
    let t = s.skip(1);
    if i == 0 {
        lemma_count_less_bounds(t, s[0] as int, s[0] + 1);
    } else {
        lemma_count_less_entry(t, i - 1);
    }
}

/// A value that stands twice in a sequence is counted twice.
pub proof fn lemma_count_less_twice(s: Seq<usize>, i: int, j: int)
    requires
        0 <= i < j < s.len(),
        s[i] == s[j],
    ensures
        count_less(s, s[i] + 1) >= count_less(s, s[i] as int) + 2,
    decreases s.len(),
{
    let t = s.skip(1);
    if i == 0 {
        lemma_count_less_entry(t, j - 1);
    } else {
        lemma_count_less_twice(t, i - 1, j - 1);
    }
}

/// A value that stands nowhere in a sequence is not counted.
pub proof fn lemma_count_less_absent(s: Seq<usize>, v: int)
    requires
        forall|i: int| 0 <= i < s.len() ==> #[trigger] s[i] != v,
    ensures
        count_less(s, v + 1) == count_less(s, v),
    decreases s.len(),
{
    if s.len() > 0 {
        let t = s.skip(1);
        assert forall|i: int| 0 <= i < t.len() implies #[trigger] t[i] != v by {
            assert(s[i + 1] != v);
        }
        assert(s[0] != v);
        lemma_count_less_absent(t, v);
    }
}

/// Below the bound `v`, the sequence `0, 1, .., n - 1` holds `v` entries, or
/// all `n` of them.
pub proof fn lemma_count_less_ascending(n: nat, v: int)
    requires
        n <= usize::MAX,
    ensures
        count_less(ascending(n), v) == if v <= 0 {
            0
        } else if v <= n {
            v
        } else {
            n as int
        },
        strictly_increasing(ascending(n)),
{
    let s = ascending(n);
    assert(strictly_increasing(s));
    if v <= 0 {
        lemma_count_less_bounds(s, v, v);
    } else if v <= n {
        lemma_count_less_increasing_bound(s, v - 1);
    } else if n > 0 {
        lemma_count_less_increasing_bound(s, n - 1);
        lemma_count_less_bounds(s, n as int, v);
    } else {
        lemma_count_less_bounds(s, v, v);
    }
}

/// In an increasing sequence the entries up to the one at place `d` are the
/// `d + 1` first ones.
proof fn lemma_count_less_increasing_bound(s: Seq<usize>, d: int)
    requires
        strictly_increasing(s),
        0 <= d < s.len(),
    ensures
        count_less(s, s[d] + 1) == d + 1,
{
    lemma_count_less_increasing(s, d);
    lemma_count_less_remove(s, d, s[d] as int);
    lemma_count_less_remove(s, d, s[d] + 1);
    let r = s.remove(d);
    assert forall|i: int| 0 <= i < r.len() implies #[trigger] r[i] != s[d] by {
        if i < d {
            assert(s[i] < s[d]);
        } else {
            assert(s[d] < s[i + 1]);
        }
    }
    lemma_count_less_absent(r, s[d] as int);
}

/// The `k`-th permutation is a permutation.
pub proof fn lemma_get_kth_perm_is_permutation(n: nat, k: nat)
    requires
        n <= usize::MAX,
        k < factorial(n),
    ensures
        spec_get_kth_perm(n, k).len() == n,
        is_permutation(spec_get_kth_perm(n, k)),
{
    let p = spec_get_kth_perm(n, k);
    lemma_arrange_counts(ascending(n), k, 0);
    assert forall|i: int| 0 <= i < p.len() implies #[trigger] p[i] < p.len() by {
        let x = p[i] as int;
        lemma_count_less_entry(p, i);
        lemma_arrange_counts(ascending(n), k, x);
        lemma_arrange_counts(ascending(n), k, x + 1);
        lemma_count_less_ascending(n, x);
        lemma_count_less_ascending(n, x + 1);
    }
    assert forall|i: int, j: int| 0 <= i < j < p.len() implies #[trigger] p[i] != #[trigger] p[j] by {
        if p[i] == p[j] {
            let x = p[i] as int;
            lemma_count_less_twice(p, i, j);
            lemma_arrange_counts(ascending(n), k, x);
            lemma_arrange_counts(ascending(n), k, x + 1);
            lemma_count_less_ascending(n, x);
            lemma_count_less_ascending(n, x + 1);
        }
    }
}

/// Ranking undoes unranking: for every `n` and every `k < n!`, the `k`-th
/// permutation of `0..n` is mapped to `k`.
pub proof fn lemma_map_get_kth_perm(n: nat, k: nat)
    requires
        n <= usize::MAX,
        k < factorial(n),
    ensures
        spec_map_permutation(spec_get_kth_perm(n, k)) == k,
{
    lemma_count_less_ascending(n, 0);
    lemma_map_arrange(ascending(n), k);
}

/// Where no value stands twice, raising the bound by one counts at most one
/// entry more.
pub proof fn lemma_count_less_once(s: Seq<usize>, v: int)
    requires
        forall|i: int, j: int| 0 <= i < j < s.len() ==> #[trigger] s[i] != #[trigger] s[j],
    ensures
        count_less(s, v + 1) <= count_less(s, v) + 1,
    decreases s.len(),
{
    if s.len() > 0 {
        let t = s.skip(1);
        assert forall|i: int, j: int| 0 <= i < j < t.len() implies #[trigger] t[i] != #[trigger] t[j] by {
            assert(s[i + 1] != s[j + 1]);
        }
        if s[0] == v {
            assert forall|i: int| 0 <= i < t.len() implies #[trigger] t[i] != v by {
                assert(s[0] != s[i + 1]);
            }
            lemma_count_less_absent(t, v);
        } else {
            lemma_count_less_once(t, v);
        }
    }
}

/// Where every entry is below `n`, all are counted below `n`.
pub proof fn lemma_count_less_all(s: Seq<usize>, n: int)
    requires
        forall|i: int| 0 <= i < s.len() ==> #[trigger] s[i] < n,
    ensures
        count_less(s, n) == s.len(),
    decreases s.len(),
{
    if s.len() > 0 {
        let t = s.skip(1);
        assert forall|i: int| 0 <= i < t.len() implies #[trigger] t[i] < n by {
            assert(s[i + 1] < n);
        }
        assert(s[0] < n);
        lemma_count_less_all(t, n);
    }
}

/// A permutation holds at most `v` entries below `v`.
proof fn lemma_permutation_count_upper(p: Seq<usize>, v: int)
    requires
        is_permutation(p),
        0 <= v,
    ensures
        count_less(p, v) <= v,
    decreases v,
{
    if v == 0 {
        lemma_count_less_bounds(p, 0, 0);
    } else {
        lemma_permutation_count_upper(p, v - 1);
        lemma_count_less_once(p, v - 1);
    }
}

/// A permutation of `0..n` holds at least `v` entries below `v`, for `v` up
/// to `n`.
proof fn lemma_permutation_count_lower(p: Seq<usize>, v: int)
    requires
        is_permutation(p),
        0 <= v <= p.len(),
    ensures
        count_less(p, v) >= v,
    decreases p.len() - v,
{
    if v == p.len() {
        lemma_count_less_all(p, v);
    } else {
        lemma_permutation_count_lower(p, v + 1);
        lemma_count_less_once(p, v);
    }
}

/// A permutation of `0..n` holds, below every bound, what `0, 1, .., n - 1`
/// holds below it.
pub proof fn lemma_permutation_counts(p: Seq<usize>, v: int)
    requires
        is_permutation(p),
        p.len() <= usize::MAX,
    ensures
        count_less(p, v) == count_less(ascending(p.len()), v),
{
    lemma_count_less_ascending(p.len(), v);
    if v <= 0 {
        lemma_count_less_bounds(p, v, v);
    } else if v <= p.len() {
        lemma_permutation_count_upper(p, v);
        lemma_permutation_count_lower(p, v);
    } else {
        lemma_count_less_all(p, p.len() as int);
        lemma_count_less_bounds(p, p.len() as int, v);
    }
}

/// Arranging undoes ranking: a sequence that holds what the increasing
/// sequence `rem` holds is the arrangement of `rem` that has its rank.
pub proof fn lemma_arrange_map(rem: Seq<usize>, q: Seq<usize>)
    requires
        strictly_increasing(rem),
        q.len() == rem.len(),
        forall|v: int| count_less(q, v) == count_less(rem, v),
    ensures
        spec_arrange(rem, spec_map_permutation(q)) == q,
    decreases rem.len(),
{
    if rem.len() == 0 {
        assert(q =~= rem);
    } else {
        let q0 = q[0] as int;
        let t = q.skip(1);
        lemma_count_less_entry(q, 0);
        if forall|i: int| 0 <= i < rem.len() ==> #[trigger] rem[i] != q0 {
            lemma_count_less_absent(rem, q0);
            assert(count_less(q, q0) == count_less(rem, q0));
            assert(count_less(q, q0 + 1) == count_less(rem, q0 + 1));
        }
        let d = choose|i: int| 0 <= i < rem.len() && #[trigger] rem[i] == q0;
        let r = rem.remove(d);
        lemma_count_less_increasing(rem, d);
        lemma_remove_increasing(rem, d);
        assert(count_less(q, q0) == count_less(rem, q0));
        assert(count_less(t, q0) == d);
        assert forall|v: int| count_less(t, v) == count_less(r, v) by {
            lemma_count_less_remove(rem, d, v);
            assert(count_less(q, v) == count_less(rem, v));
        }
        lemma_arrange_map(r, t);
        lemma_map_permutation_bound(t);
        let f = factorial(t.len());
        lemma_digit_of_sum(d as nat, f, spec_map_permutation(t));
        assert(spec_arrange(rem, spec_map_permutation(q)) =~= q);
    }
}

/// Unranking undoes ranking: every permutation `p` of `0..n` is the
/// permutation of `0..n` that has the rank of `p`.
pub proof fn lemma_get_kth_perm_map(p: Seq<usize>)
    requires
        is_permutation(p),
        p.len() <= usize::MAX,
    ensures
        spec_get_kth_perm(p.len(), spec_map_permutation(p)) == p,
{
    lemma_count_less_ascending(p.len(), 0);
    assert forall|v: int| count_less(p, v) == count_less(ascending(p.len()), v) by {
        lemma_permutation_counts(p, v);
    }
    lemma_arrange_map(ascending(p.len()), p);
}

/// Returns the `k`-th permutation of `0..n` in lexicographic order: the one
/// that [`map_permutation`] maps to `k`.
///
/// Runs in `O(n^2)`.
pub fn get_kth_perm(n: usize, k: usize) -> (out: Vec<usize>)
    requires
        n <= MAX_LEN,
        k < factorial(n as nat),
    ensures
        out@ == spec_get_kth_perm(n as nat, k as nat),
        out.len() == n,
        is_permutation(out@),
        spec_map_permutation(out@) == k,
{
    let mut perm: Vec<usize> = Vec::new();
    let mut j: usize = 0;
    while j < n
        invariant
            j <= n,
            perm@ =~= ascending(j as nat),
        decreases n - j,
    {
        perm.push(j);
        j += 1;
    }
    let mut out: Vec<usize> = Vec::new();
    let mut k = k;
    let ghost k0 = k as nat;
    let mut i: usize = n;
    proof {
        lemma_count_less_ascending(n as nat, 0);
        assert(out@ + spec_arrange(perm@, k as nat) =~= spec_get_kth_perm(n as nat, k0));
    }
    while i > 0
        invariant
            i <= n <= MAX_LEN,
            perm.len() == i,
            k < factorial(i as nat),
            out@ + spec_arrange(perm@, k as nat) == spec_get_kth_perm(n as nat, k0),
        decreases i,
    {
        proof {
            lemma_factorial_table();
            lemma_factorial_digit(i as nat, k as nat);
        }
        i -= 1;
        let pos = k / FAC[i];
        let ghost before = perm@;
        let ghost done = out@;
        out.push(perm[pos]);
        k = k % FAC[i];
        perm.remove(pos);
        proof {
            assert(done.push(before[pos as int]) + spec_arrange(perm@, k as nat) =~= done + (
                seq![before[pos as int]] + spec_arrange(before.remove(pos as int), k as nat)));
        }
    }
    proof {
        assert(spec_arrange(perm@, k as nat) =~= Seq::<usize>::empty());
        assert(out@ =~= out@ + spec_arrange(perm@, k as nat));
        lemma_get_kth_perm_is_permutation(n as nat, k0);
        lemma_map_get_kth_perm(n as nat, k0);
    }
    out
}

/// Appending an entry adds it to the count if it is below the bound.
pub proof fn lemma_count_less_push(s: Seq<usize>, x: usize, v: int)
    ensures
        count_less(s.push(x), v) == count_less(s, v) + (if x < v {
            1nat
        } else {
            0nat
        }),
    decreases s.len(),
{
    if s.len() == 0 {
        assert(s.push(x).skip(1) =~= s);
    } else {
        lemma_count_less_push(s.skip(1), x, v);
        assert(s.push(x).skip(1) =~= s.skip(1).push(x));
    }
}

/// An increasing sequence has rank 0.
pub proof fn lemma_map_permutation_increasing(s: Seq<usize>)
    requires
        strictly_increasing(s),
    ensures
        spec_map_permutation(s) == 0,
    decreases s.len(),
{
    if s.len() > 0 {
        let t = s.skip(1);
        assert forall|i: int, j: int| 0 <= i < j < t.len() implies #[trigger] t[i] < #[trigger] t[j] by {
            assert(s[i + 1] < s[j + 1]);
        }
        if t.len() > 0 {
            assert(s[0] < s[1]);
        }
        lemma_count_less_none(t, s[0] as int);
        lemma_map_permutation_increasing(t);
        assert(0 * factorial((s.len() - 1) as nat) == 0);
    }
}

/// Replacing one entry takes the old one out of the count and puts the new
/// one in.
pub proof fn lemma_count_less_update(s: Seq<usize>, i: int, x: usize, v: int)
    requires
        0 <= i < s.len(),
    ensures
        count_less(s.update(i, x), v) + (if s[i] < v {
            1nat
        } else {
            0nat
        }) == count_less(s, v) + (if x < v {
            1nat
        } else {
            0nat
        }),
    decreases s.len(),
{
    if i == 0 {
        assert(s.update(0, x).skip(1) =~= s.skip(1));
    } else {
        lemma_count_less_update(s.skip(1), i - 1, x, v);
        assert(s.update(i, x).skip(1) =~= s.skip(1).update(i - 1, x));
    }
}

} // verus!
