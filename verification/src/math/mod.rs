//! Factorials, binomial coefficients and powers, and beside them the ranking
//! of permutations and of subsets.

pub mod parity;
pub mod permutation;
pub mod subset;
pub mod sums;

pub use crate::math::parity::{
    count_inversions, exchange, four_cycle, inversions, lemma_count_less_exchange,
    lemma_inversions_bound, lemma_inversions_exchange, lemma_inversions_exchange_neighbours,
    lemma_inversions_four_cycle,
};
pub use crate::math::permutation::{
    ascending, count_less, get_kth_perm, is_permutation, lemma_arrange_counts, lemma_arrange_map,
    lemma_count_less_absent, lemma_count_less_all, lemma_count_less_ascending,
    lemma_count_less_bounds, lemma_count_less_entry, lemma_count_less_increasing,
    lemma_count_less_none, lemma_count_less_once, lemma_count_less_push, lemma_count_less_remove,
    lemma_count_less_twice, lemma_count_less_update, lemma_digit_of_sum, lemma_factorial_digit,
    lemma_get_kth_perm_is_permutation, lemma_get_kth_perm_map, lemma_map_arrange,
    lemma_map_get_kth_perm, lemma_map_permutation_bound, lemma_map_permutation_increasing,
    lemma_permutation_counts, lemma_remove_increasing, low_bit, map_permutation, spec_arrange,
    spec_get_kth_perm, spec_map_permutation, strictly_increasing,
};
pub use crate::math::subset::{
    count_true, get_nck, lemma_count_true_bound, lemma_get_map_nck, lemma_get_nck_none,
    lemma_get_nck_shape, lemma_map_get_nck, lemma_map_nck_bound, lemma_map_nck_last, map_nck,
    spec_get_nck, spec_map_nck,
};
pub use crate::math::sums::{
    holds_below, lemma_equal_12, lemma_equal_8, lemma_holds_below, lemma_seq_sum_add,
    lemma_seq_sum_mod, lemma_seq_sum_permuted, lemma_seq_sum_remove, seq_sum,
};
use vstd::arithmetic::div_mod::lemma_fundamental_div_mod_converse;
use vstd::arithmetic::power::{lemma_pow0, lemma_pow_positive, pow};
use vstd::prelude::*;

verus! {

/// `n!` as a mathematical integer.
pub open spec fn factorial(n: nat) -> nat
    decreases n,
{
    if n == 0 {
        1
    } else {
        n * factorial((n - 1) as nat)
    }
}

/// The number of ways to choose `k` elements out of `n`, by Pascal's rule.
pub open spec fn binomial(n: nat, k: nat) -> nat
    decreases n,
{
    if k == 0 {
        1
    } else if n == 0 {
        0
    } else {
        binomial((n - 1) as nat, (k - 1) as nat) + binomial((n - 1) as nat, k)
    }
}

/// The largest length the ranking functions work on: `12!` is the largest
/// factorial that fits in 32 bits.
pub const MAX_LEN: usize = 12;

/// The factorials of `0..=12`.
pub const FAC: [usize; 13] = [
    1,
    1,
    2,
    6,
    24,
    120,
    720,
    5040,
    40320,
    362880,
    3628800,
    39916800,
    479001600,
];

/// The table of factorials holds the factorials.
pub proof fn lemma_factorial_table()
    ensures
        forall|i: int| 0 <= i <= MAX_LEN ==> #[trigger] FAC@[i] == factorial(i as nat),
{
    reveal_with_fuel(factorial, 14);
    assert(FAC@[0] == factorial(0));
    assert(FAC@[1] == factorial(1));
    assert(FAC@[2] == factorial(2));
    assert(FAC@[3] == factorial(3));
    assert(FAC@[4] == factorial(4));
    assert(FAC@[5] == factorial(5));
    assert(FAC@[6] == factorial(6));
    assert(FAC@[7] == factorial(7));
    assert(FAC@[8] == factorial(8));
    assert(FAC@[9] == factorial(9));
    assert(FAC@[10] == factorial(10));
    assert(FAC@[11] == factorial(11));
    assert(FAC@[12] == factorial(12));
}

/// Factorials are positive and do not decrease.
pub proof fn lemma_factorial_increases(a: nat, b: nat)
    requires
        a <= b,
    ensures
        1 <= factorial(a) <= factorial(b),
    decreases b,
{
    if b == 0 {
    } else if a == b {
        lemma_factorial_increases((a - 1) as nat, (b - 1) as nat);
        assert(factorial(a) >= 1) by (nonlinear_arith)
            requires
                factorial(a) == a * factorial((a - 1) as nat),
                a >= 1,
                factorial((a - 1) as nat) >= 1,
        ;
    } else {
        lemma_factorial_increases(a, (b - 1) as nat);
        assert(factorial(b) >= factorial((b - 1) as nat)) by (nonlinear_arith)
            requires
                factorial(b) == b * factorial((b - 1) as nat),
                b >= 1,
                factorial((b - 1) as nat) >= 1,
        ;
    }
}

/// There is no way to choose more than there is, and one way to choose all.
pub proof fn lemma_binomial_edges(n: nat, k: nat)
    ensures
        k > n ==> binomial(n, k) == 0,
        binomial(n, n) == 1,
        binomial(n, 0) == 1,
    decreases n,
{
    if n > 0 {
        lemma_binomial_edges((n - 1) as nat, k);
        lemma_binomial_edges((n - 1) as nat, n);
        if k > 0 {
            lemma_binomial_edges((n - 1) as nat, (k - 1) as nat);
        }
    }
}

/// A binomial coefficient is the quotient of factorials:
/// `C(n, k) * k! * (n - k)! = n!`.
pub proof fn lemma_binomial_factorial(n: nat, k: nat)
    requires
        k <= n,
    ensures
        binomial(n, k) * (factorial(k) * factorial((n - k) as nat)) == factorial(n),
    decreases n,
{
    lemma_binomial_edges(n, k);
    if k == 0 {
        assert(1 * (1 * factorial(n)) == factorial(n));
    } else if k == n {
        assert(1 * (factorial(n) * 1) == factorial(n));
    } else {
        let m = (n - 1) as nat;
        let j = (k - 1) as nat;
        lemma_binomial_factorial(m, j);
        lemma_binomial_factorial(m, k);
        let a = binomial(m, j);
        let b = binomial(m, k);
        let fj = factorial(j);
        let fk = factorial(k);
        let fd = factorial((n - k) as nat);
        let fe = factorial((m - k) as nat);
        let fm = factorial(m);
        assert(fk == k * fj);
        assert(fd == (n - k) * fe);
        assert(a * (fk * fd) == k * fm) by (nonlinear_arith)
            requires
                a * (fj * fd) == fm,
                fk == k * fj,
        ;
        assert(b * (fk * fd) == (n - k) * fm) by (nonlinear_arith)
            requires
                b * (fk * fe) == fm,
                fd == (n - k) * fe,
        ;
        assert((a + b) * (fk * fd) == a * (fk * fd) + b * (fk * fd)) by (nonlinear_arith);
        assert(k * fm + (n - k) * fm == n * fm) by (nonlinear_arith);
    }
}

/// Builds the list of the factorials of `0..N`.
pub fn fac_list<const N: usize>() -> (out: [usize; N])
    requires
        N <= MAX_LEN + 1,
    ensures
        forall|i: int| 0 <= i < N ==> #[trigger] out@[i] == factorial(i as nat),
{
    let mut out = [1usize;N];
    let mut i: usize = 1;
    while i < N
        invariant
            1 <= i,
            N <= MAX_LEN + 1,
            forall|j: int| 0 <= j < i && j < N ==> #[trigger] out@[j] == factorial(j as nat),
        decreases N - i,
    {
        proof {
            lemma_factorial_increases(i as nat, MAX_LEN as nat);
            lemma_factorial_table();
            assert(factorial(i as nat) <= FAC@[12]);
            assert(out@[i - 1] * i == factorial(i as nat)) by (nonlinear_arith)
                requires
                    out@[i - 1] == factorial((i - 1) as nat),
                    factorial(i as nat) == i * factorial((i - 1) as nat),
            ;
        }
        out[i] = out[i - 1] * i;
        i += 1;
    }
    out
}

/// Returns `n` choose `k`, the number of ways to choose `k` elements out of
/// `n`.
pub fn n_choose_k(n: usize, k: usize) -> (res: usize)
    requires
        k <= n <= MAX_LEN,
    ensures
        res == binomial(n as nat, k as nat),
{
    proof {
        lemma_factorial_table();
        lemma_binomial_factorial(n as nat, k as nat);
        lemma_factorial_increases(k as nat, n as nat);
        lemma_factorial_increases((n - k) as nat, n as nat);
        let c = binomial(n as nat, k as nat) as int;
        let d = (factorial(k as nat) * factorial((n - k) as nat)) as int;
        assert(d >= 1) by (nonlinear_arith)
            requires
                d == factorial(k as nat) * factorial((n - k) as nat),
                factorial(k as nat) >= 1,
                factorial((n - k) as nat) >= 1,
        ;
        assert(d <= factorial(n as nat)) by (nonlinear_arith)
            requires
                c * d == factorial(n as nat),
                factorial(n as nat) >= 1,
                d >= 1,
                c >= 0,
        ;
        assert(FAC@[n - k] * FAC@[k as int] == d) by (nonlinear_arith)
            requires
                d == factorial(k as nat) * factorial((n - k) as nat),
                FAC@[n - k] == factorial((n - k) as nat),
                FAC@[k as int] == factorial(k as nat),
        ;
        lemma_fundamental_div_mod_converse(factorial(n as nat) as int, d, c, 0);
    }
    FAC[n] / (FAC[n - k] * FAC[k])
}

/// Calculates `base` to the power `exp` by squaring, in a number of steps
/// logarithmic in `exp`.
pub fn fast_pow(base: usize, exp: usize) -> (res: usize)
    requires
        pow(base as int, exp as nat) <= usize::MAX,
    ensures
        res == pow(base as int, exp as nat),
{
    let mut exp = exp;
    let mut b = base;
    let mut x: usize = 1;
    let ghost total = pow(base as int, exp as nat);
    while exp != 0
        invariant
            x * pow(b as int, exp as nat) == total,
            total <= usize::MAX,
            b > 0 ==> x >= 1,
        decreases exp,
    {
        let ghost half = (exp / 2) as nat;
        let ghost rest = pow((b * b) as int, half);
        assert(exp & 1 == exp % 2) by (bit_vector);
        assert(exp >> 1 == exp / 2) by (bit_vector);
        proof {
            lemma_pow_split(b as int, exp as nat);
            if b > 0 {
                assert(b * b > 0) by (nonlinear_arith)
                    requires
                        b > 0,
                ;
                lemma_pow_positive((b * b) as int, half);
            }
        }
        if (exp & 1) == 1 {
            assert(x * b <= total && (x * b) * rest == total && (b > 0 ==> x * b >= 1))
                by (nonlinear_arith)
                requires
                    x * (b * rest) == total,
                    b > 0 ==> rest >= 1 && x >= 1,
                    b >= 0,
                    x >= 0,
            ;
            x = x * b;
        }
        exp = exp >> 1;
        if exp != 0 {
            proof {
                lemma_pow_unfold((b * b) as int, half);
                if b > 0 {
                    lemma_pow_positive((b * b) as int, (half - 1) as nat);
                }
            }
            assert(b * b <= total) by (nonlinear_arith)
                requires
                    x * rest == total,
                    rest == (b * b) * pow((b * b) as int, (half - 1) as nat),
                    b > 0 ==> pow((b * b) as int, (half - 1) as nat) >= 1 && x >= 1,
                    x >= 0,
                    b >= 0,
            ;
            b = b * b;
        } else {
            proof {
                lemma_pow0((b * b) as int);
                lemma_pow0(b as int);
            }
        }
    }
    proof {
        lemma_pow0(b as int);
    }
    x
}

/// `b^e` is `(b * b)^(e / 2)`, times `b` when `e` is odd.
proof fn lemma_pow_split(b: int, e: nat)
    ensures
        e % 2 == 0 ==> pow(b, e) == pow(b * b, e / 2),
        e % 2 == 1 ==> pow(b, e) == b * pow(b * b, e / 2),
{
    let h = e / 2;
    lemma_pow_square(b, h);
    if e % 2 == 1 {
        assert(e == h * 2 + 1);
        lemma_pow_unfold(b, e);
    } else {
        assert(e == h * 2);
    }
}

/// `b^(2h) = (b * b)^h`.
proof fn lemma_pow_square(b: int, h: nat)
    ensures
        pow(b, h * 2) == pow(b * b, h),
    decreases h,
{
    lemma_pow0(b);
    lemma_pow0(b * b);
    if h > 0 {
        lemma_pow_square(b, (h - 1) as nat);
        lemma_pow_unfold(b * b, h);
        lemma_pow_unfold(b, h * 2);
        lemma_pow_unfold(b, (h * 2 - 1) as nat);
        assert(b * (b * pow(b, ((h - 1) * 2) as nat)) == (b * b) * pow(b, ((h - 1) * 2) as nat))
            by (nonlinear_arith);
    }
}

/// `b^e = b * b^(e - 1)` for a positive exponent.
pub proof fn lemma_pow_unfold(b: int, e: nat)
    requires
        e > 0,
    ensures
        pow(b, e) == b * pow(b, (e - 1) as nat),
{
    reveal(pow);
}

/// A binomial coefficient is no larger than the factorial.
pub proof fn lemma_binomial_bound(n: nat, k: nat)
    ensures
        binomial(n, k) <= factorial(n),
{
    lemma_binomial_edges(n, k);
    lemma_factorial_increases(0, n);
    if k <= n {
        lemma_binomial_factorial(n, k);
        lemma_factorial_increases(k, n);
        lemma_factorial_increases((n - k) as nat, n);
        let c = binomial(n, k);
        let a = factorial(k);
        let b = factorial((n - k) as nat);
        assert(c <= c * (a * b)) by (nonlinear_arith)
            requires
                a >= 1,
                b >= 1,
                c >= 0,
        ;
    }
}

/// The value of the number whose digits, lowest first, are the first `n`
/// entries of `d`.
pub open spec fn digits_value(d: Seq<nat>, base: nat, n: nat) -> nat
    decreases n,
{
    if n == 0 {
        0
    } else {
        (digits_value(d, base, (n - 1) as nat) + d[n - 1] * pow(base as int, (n - 1) as nat)) as nat
    }
}

/// A number of `n` digits, each below the base, is below the `n`-th power of
/// the base.
pub proof fn lemma_digits_value_bound(d: Seq<nat>, base: nat, n: nat)
    requires
        n <= d.len(),
        forall|i: int| 0 <= i < n ==> #[trigger] d[i] < base,
    ensures
        digits_value(d, base, n) < pow(base as int, n),
    decreases n,
{
    lemma_pow0(base as int);
    if n > 0 {
        let m = (n - 1) as nat;
        lemma_digits_value_bound(d, base, m);
        lemma_pow_unfold(base as int, n);
        let p = pow(base as int, m);
        assert(d[n - 1] < base);
        assert(digits_value(d, base, m) + d[n - 1] * p < base * p) by (nonlinear_arith)
            requires
                digits_value(d, base, m) < p,
                d[n - 1] + 1 <= base,
        ;
    }
}

/// A number whose digits are all 0 is 0.
pub proof fn lemma_digits_value_zero(d: Seq<nat>, base: nat, n: nat)
    requires
        n <= d.len(),
        forall|i: int| 0 <= i < n ==> #[trigger] d[i] == 0,
    ensures
        digits_value(d, base, n) == 0,
    decreases n,
{
    if n > 0 {
        lemma_digits_value_zero(d, base, (n - 1) as nat);
        assert(d[n - 1] == 0);
        assert(0 * pow(base as int, (n - 1) as nat) == 0);
    }
}

/// Builds the list of the powers `base^0, .., base^(N - 1)`.
pub fn pow_list<const N: usize>(base: usize) -> (out: [usize; N])
    requires
        N > 0 ==> pow(base as int, (N - 1) as nat) <= usize::MAX,
    ensures
        forall|i: int| 0 <= i < N ==> #[trigger] out@[i] == pow(base as int, i as nat),
{
    let mut out = [1usize;N];
    proof {
        lemma_pow0(base as int);
    }
    let mut i: usize = 1;
    while i < N
        invariant
            1 <= i,
            N > 0 ==> pow(base as int, (N - 1) as nat) <= usize::MAX,
            forall|j: int| 0 <= j < i && j < N ==> #[trigger] out@[j] == pow(base as int, j as nat),
        decreases N - i,
    {
        proof {
            lemma_pow_unfold(base as int, i as nat);
            if base > 0 {
                vstd::arithmetic::power::lemma_pow_increases(
                    base as nat,
                    i as nat,
                    (N - 1) as nat,
                );
            } else {
                vstd::arithmetic::power::lemma0_pow(i as nat);
            }
            assert(out@[i - 1] * base == base * pow(base as int, (i - 1) as nat))
                by (nonlinear_arith)
                requires
                    out@[i - 1] == pow(base as int, (i - 1) as nat),
            ;
        }
        out[i] = out[i - 1] * base;
        i += 1;
    }
    out
}

} // verus!
