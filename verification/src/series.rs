//! A harmonic-style series — the sum of `1/i` for `i` from 1 up to but
//! excluding a bound `n` — computed two ways over exact rationals.
//!
//! The value is returned as a fraction `(numerator, denominator)` with
//! denominator `(n - 1)!`, so the two implementations can be proved to agree
//! exactly, not merely within a tolerance; callers that want the familiar
//! floating-point value divide the two components outside the verified code.

use vstd::prelude::*;

verus! {

/// `k!`, the denominator that keeps every partial sum of reciprocals exact.
pub open spec fn fact(k: nat) -> nat
    decreases k,
{
    if k == 0 {
        1
    } else {
        k * fact((k - 1) as nat)
    }
}

/// Numerator of `1/1 + 1/2 + ... + 1/k` over the denominator `k!`.
pub open spec fn harmonic_numer(k: nat) -> nat
    decreases k,
{
    if k == 0 {
        0
    } else {
        k * harmonic_numer((k - 1) as nat) + fact((k - 1) as nat)
    }
}

/// How many reciprocals the series up to (excluding) `n` actually sums.
pub open spec fn series_terms(n: i32) -> nat {
    if n <= 1 {
        0
    } else {
        (n - 1) as nat
    }
}

proof fn lemma_mul_le(a: int, b: int, c: int, d: int)
    by (nonlinear_arith)
    requires
        0 <= a <= c,
        0 <= b <= d,
    ensures
        a * b <= c * d,
{
}

proof fn lemma_fact_pos(k: nat)
    ensures
        fact(k) >= 1,
    decreases k,
{
    if k > 0 {
        lemma_fact_pos((k - 1) as nat);
        lemma_mul_le(1, 1, k as int, fact((k - 1) as nat) as int);
    }
}

proof fn lemma_fact_mono(a: nat, b: nat)
    requires
        a <= b,
    ensures
        fact(a) <= fact(b),
    decreases b,
{
    if a < b {
        lemma_fact_mono(a, (b - 1) as nat);
        lemma_fact_pos((b - 1) as nat);
        lemma_mul_le(1, fact((b - 1) as nat) as int, b as int, fact((b - 1) as nat) as int);
    }
}

proof fn lemma_numer_bound(k: nat)
    ensures
        harmonic_numer(k) <= k * fact(k),
    decreases k,
{
    if k > 0 {
        let km1 = (k - 1) as nat;
        lemma_numer_bound(km1);
        lemma_fact_pos(km1);
        let hnm1 = harmonic_numer(km1) as int;
        let fm1 = fact(km1) as int;
        let ki = k as int;
        assert(ki * hnm1 + fm1 <= ki * (ki * fm1)) by (nonlinear_arith)
            requires
                hnm1 <= (ki - 1) * fm1,
                1 <= ki,
                1 <= fm1,
                0 <= hnm1,
        ;
        assert(fact(k) == k * fact(km1));
    }
}

proof fn lemma_fact_values()
    ensures
        fact(18) == 6402373705728000,
        fact(19) == 121645100408832000,
{
    assert(fact(0) == 1);
    assert(fact(1) == 1);
    assert(fact(2) == 2);
    assert(fact(3) == 6);
    assert(fact(4) == 24);
    assert(fact(5) == 120);
    assert(fact(6) == 720);
    assert(fact(7) == 5040);
    assert(fact(8) == 40320);
    assert(fact(9) == 362880);
    assert(fact(10) == 3628800);
    assert(fact(11) == 39916800);
    assert(fact(12) == 479001600);
    assert(fact(13) == 6227020800);
    assert(fact(14) == 87178291200);
    assert(fact(15) == 1307674368000);
    assert(fact(16) == 20922789888000);
    assert(fact(17) == 355687428096000);
    assert(fact(18) == 6402373705728000);
    assert(fact(19) == 121645100408832000);
}

/// Bounds for one accumulation step: starting from the exact fraction for
/// `m <= 18` reciprocals, folding in the next reciprocal with factor
/// `k <= 19` stays well inside `u64`.
proof fn lemma_step_bounds(m: nat, k: nat)
    requires
        m <= 18,
        1 <= k <= 19,
    ensures
        harmonic_numer(m) * k + fact(m) <= u64::MAX,
        fact(m) * k <= u64::MAX,
{
    lemma_fact_mono(m, 18);
    lemma_fact_values();
    lemma_numer_bound(m);
    lemma_mul_le(m as int, fact(m) as int, 18, 6402373705728000);
    lemma_mul_le(harmonic_numer(m) as int, k as int, 18int * 6402373705728000, 19);
    lemma_mul_le(fact(m) as int, k as int, 6402373705728000, 19);
}

/// Iterative form: an explicit accumulation loop.
///
/// Returns the series value as the exact fraction
/// `(harmonic_numer(series_terms(n)), fact(series_terms(n)))`; a bound of one
/// or less sums nothing and yields `0/1`.
pub fn harmonic(n: i32) -> (r: (u64, u64))
    requires
        n <= 20,
    ensures
        r.0 == harmonic_numer(series_terms(n)),
        r.1 == fact(series_terms(n)),
{
    if n <= 1 {
        return (0, 1);
    }
    let last: u64 = (n - 1) as u64;
    let mut num: u64 = 0;
    let mut den: u64 = 1;
    let mut i: u64 = 1;
    while i <= last
        invariant
            1 <= i <= last + 1,
            last == n - 1,
            2 <= n <= 20,
            num == harmonic_numer((i - 1) as nat),
            den == fact((i - 1) as nat),
        decreases last + 1 - i,
    {
        proof {
            lemma_step_bounds((i - 1) as nat, i as nat);
        }
        let ghost k: nat = i as nat;
        num = num * i + den;
        den = den * i;
        proof {
            assert(harmonic_numer(k) == k * harmonic_numer((k - 1) as nat) + fact((k - 1) as nat));
            assert(fact(k) == k * fact((k - 1) as nat));
            assert(num == harmonic_numer(k));
            assert(den == fact(k));
        }
        i = i + 1;
    }
    (num, den)
}

/// Declarative form: the same series by structural recursion over the bound.
///
/// Meets exactly the contract of [`harmonic`], so the two styles are
/// interchangeable.
pub fn harmonic_functional(n: i32) -> (r: (u64, u64))
    requires
        n <= 20,
    ensures
        r.0 == harmonic_numer(series_terms(n)),
        r.1 == fact(series_terms(n)),
    decreases n,
{
    if n <= 1 {
        (0, 1)
    } else {
        let prev = harmonic_functional(n - 1);
        let k: u64 = (n - 1) as u64;
        proof {
            lemma_step_bounds(series_terms((n - 1) as i32), k as nat);
            assert(series_terms(n) == series_terms((n - 1) as i32) + 1);
        }
        let num = prev.0 * k + prev.1;
        let den = prev.1 * k;
        proof {
            let m: nat = series_terms(n);
            assert((m - 1) as nat == series_terms((n - 1) as i32));
            assert(harmonic_numer(m) == m * harmonic_numer((m - 1) as nat) + fact((m - 1) as nat));
            assert(fact(m) == m * fact((m - 1) as nat));
            assert(num == harmonic_numer(m));
            assert(den == fact(m));
        }
        (num, den)
    }
}

/// Law: the iterative and the declarative computation agree on every bound.
/// Any pair of results that meet the two functions' contracts for the same
/// `n` are equal, and for `n <= 1` both are the empty sum `0/1`.
pub proof fn lemma_series_agree(n: i32, a: (u64, u64), b: (u64, u64))
    requires
        a.0 == harmonic_numer(series_terms(n)),
        a.1 == fact(series_terms(n)),
        b.0 == harmonic_numer(series_terms(n)),
        b.1 == fact(series_terms(n)),
    ensures
        a == b,
        n <= 1 ==> a == (0u64, 1u64),
{
}

} // verus!
