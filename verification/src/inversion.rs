//! Modular inversion of 64-bit integers by the extended Euclidean algorithm.

use vstd::arithmetic::div_mod::{
    lemma_fundamental_div_mod, lemma_mod_multiples_basic, lemma_mod_multiples_vanish,
    lemma_mul_mod_noop_left, lemma_small_mod,
};
use vstd::prelude::*;

verus! {

/// Whether some `d > 1` divides both `x` and `p`.
pub open spec fn shares_divisor(x: int, p: int) -> bool {
    exists|d: int| common_divisor(x, p, d)
}

/// Whether `d > 1` divides both `x` and `p`.
pub open spec fn common_divisor(x: int, p: int, d: int) -> bool {
    d > 1 && x % d == 0 && p % d == 0
}

/// Whether `inv` is the inverse of `x` modulo `p`, reduced.
pub open spec fn is_inverse(x: int, inv: int, p: int) -> bool {
    0 <= inv < p && (x * inv) % p == 1
}

/// A number with an inverse modulo `p` shares no divisor with `p`.
pub proof fn lemma_inverse_excludes_divisor(x: int, inv: int, p: int, d: int)
    requires
        p > 1,
        (x * inv) % p == 1,
    ensures
        !common_divisor(x, p, d),
{
    if common_divisor(x, p, d) {
        let a = x / d;
        let b = p / d;
        let q = (x * inv) / p;
        lemma_fundamental_div_mod(x, d);
        lemma_fundamental_div_mod(p, d);
        lemma_fundamental_div_mod(x * inv, p);
        let z = a * inv - b * q;
        assert(d * z == 1) by (nonlinear_arith)
            requires
                x == d * a,
                p == d * b,
                x * inv == p * q + 1,
                z == a * inv - b * q,
        ;
        assert(false) by (nonlinear_arith)
            requires
                d > 1,
                d * z == 1,
        ;
    }
}

/// Modulo `p`, a number has at most one reduced inverse.
pub proof fn lemma_inverse_unique(x: int, i: int, j: int, p: int)
    requires
        p > 1,
        is_inverse(x, i, p),
        is_inverse(x, j, p),
    ensures
        i == j,
{
    let qi = (x * i) / p;
    let qj = (x * j) / p;
    lemma_fundamental_div_mod(x * i, p);
    lemma_fundamental_div_mod(x * j, p);
    // i == i * (x * j) - i * p * qj and j == j * (x * i) - j * p * qi.
    let k = i * qj - j * qi;
    assert(i - j == p * (-k)) by (nonlinear_arith)
        requires
            x * i == p * qi + 1,
            x * j == p * qj + 1,
            k == i * qj - j * qi,
    ;
    if i != j {
        assert(false) by (nonlinear_arith)
            requires
                i - j == p * (-k),
                0 <= i < p,
                0 <= j < p,
                i != j,
        ;
    }
}

/// Bezout's identity: returns `(g, s, t, ka, kb)` with `g == s * a + t * b`
/// a common divisor of `a` and `b`, `a == ka * g` and `b == kb * g`.
pub proof fn lemma_bezout(a: nat, b: nat) -> (r: (int, int, int, int, int))
    requires
        a > 0,
    ensures
        r.0 > 0,
        r.0 == r.1 * a + r.2 * b,
        a == r.3 * r.0,
        b == r.4 * r.0,
    decreases b,
{
    if b == 0 {
        (a as int, 1, 0, 1, 0)
    } else {
        let q = (a / b) as int;
        let m = a % b;
        lemma_fundamental_div_mod(a as int, b as int);
        let (g, s, t, kb, km) = lemma_bezout(b, m);
        let na = s - q * t;
        let ka = q * kb + km;
        assert(g == t * a + na * b) by (nonlinear_arith)
            requires
                g == s * b + t * m,
                a == b * q + m,
                na == s - q * t,
        ;
        assert(a == ka * g) by (nonlinear_arith)
            requires
                a == b * q + m,
                b == kb * g,
                m == km * g,
                ka == q * kb + km,
        ;
        (g, t, na, ka, kb)
    }
}

/// A number that shares no divisor with `p` has an inverse modulo `p`.
pub proof fn lemma_coprime_has_inverse(x: int, p: int)
    requires
        p > 1,
        0 < x,
        !shares_divisor(x, p),
    ensures
        exists|i: int| is_inverse(x, i, p),
{
    let (g, s, t, kx, kp) = lemma_bezout(x as nat, p as nat);
    lemma_mod_multiples_basic(kx, g);
    lemma_mod_multiples_basic(kp, g);
    assert(g == 1) by {
        if g > 1 {
            assert(common_divisor(x, p, g));
        }
    }
    let i = s % p;
    assert((x * s) % p == 1) by {
        assert(p * t + x * s == 1) by (nonlinear_arith)
            requires
                1 == s * x + t * p,
        ;
        lemma_mod_multiples_vanish(t, x * s, p);
        lemma_small_mod(1, p as nat);
    }
    vstd::arithmetic::div_mod::lemma_mul_mod_noop_right(x, s, p);
    vstd::arithmetic::div_mod::lemma_mod_bound(s, p);
    assert(is_inverse(x, i, p));
}

/// The inverse of `x` modulo `p`, where there is one.
///
/// Returns `None` exactly when `p <= 1` or `x` and `p` share a divisor
/// greater than 1, in which case `x` has no inverse; otherwise the one
/// `inv < p` with `x * inv == 1` modulo `p`.
pub fn try_inverse_u64(x: u64, p: u64) -> (r: Option<u64>)
    ensures
        r is None <==> (p <= 1 || shares_divisor(x as int, p as int)),
        r matches Some(inv) ==> is_inverse(x as int, inv as int, p as int),
{
    if p <= 1 {
        return None;
    }
    let x0: u64 = x % p;
    let mut r0: u64 = p;
    let mut r1: u64 = x0;
    let mut t0: u64 = 0;
    let mut t1: u64 = 1;
    // t0 * x0 == r0 + k0 * p and t1 * x0 == r1 + k1 * p: the Bezout side.
    let ghost mut k0: int = -1;
    let ghost mut k1: int = 0;
    // x0 == a0 * r0 + b0 * r1 and p == a1 * r0 + b1 * r1: r0 and r1 keep
    // the common divisors of x0 and p.
    let ghost mut a0: int = 0;
    let ghost mut b0: int = 1;
    let ghost mut a1: int = 1;
    let ghost mut b1: int = 0;
    while r1 != 0
        invariant
            p > 1,
            x0 < p,
            0 < r0 <= p,
            r1 < p,
            t0 < p,
            t1 < p,
            t0 * x0 == r0 + k0 * p,
            t1 * x0 == r1 + k1 * p,
            x0 == a0 * r0 + b0 * r1,
            p == a1 * r0 + b1 * r1,
        decreases r1,
    {
        let q: u64 = r0 / r1;
        let r2: u64 = r0 % r1;
        assert(q * t1 <= 0xFFFF_FFFF_FFFF_FFFF * 0xFFFF_FFFF_FFFF_FFFF) by (nonlinear_arith)
            requires
                q <= 0xFFFF_FFFF_FFFF_FFFF,
                t1 <= 0xFFFF_FFFF_FFFF_FFFF,
        ;
        let qt: u128 = (q as u128) * (t1 as u128);
        let m: u64 = (qt % (p as u128)) as u64;
        let t2: u64 = if t0 >= m {
            t0 - m
        } else {
            p - (m - t0)
        };
        proof {
            let j = (qt as int) / (p as int);
            let c: int = if t0 >= m { 0 } else { 1 };
            lemma_fundamental_div_mod(qt as int, p as int);
            lemma_fundamental_div_mod(r0 as int, r1 as int);
            assert(r0 == r1 * q + r2);
            assert(t2 == t0 - q * t1 + (j + c) * p) by (nonlinear_arith)
                requires
                    qt == q * t1,
                    qt == p * j + m,
                    t2 == t0 - m + c * p,
            ;
            let k2 = k0 - q * k1 + (j + c) * x0;
            assert(t2 * x0 == r2 + k2 * p) by (nonlinear_arith)
                requires
                    t2 == t0 - q * t1 + (j + c) * p,
                    t0 * x0 == r0 + k0 * p,
                    t1 * x0 == r1 + k1 * p,
                    r0 == r1 * q + r2,
                    k2 == k0 - q * k1 + (j + c) * x0,
            ;
            let na0 = a0 * q + b0;
            let na1 = a1 * q + b1;
            assert(x0 == na0 * r1 + a0 * r2) by (nonlinear_arith)
                requires
                    x0 == a0 * r0 + b0 * r1,
                    r0 == r1 * q + r2,
                    na0 == a0 * q + b0,
            ;
            assert(p == na1 * r1 + a1 * r2) by (nonlinear_arith)
                requires
                    p == a1 * r0 + b1 * r1,
                    r0 == r1 * q + r2,
                    na1 == a1 * q + b1,
            ;
            k0 = k1;
            k1 = k2;
            b0 = a0;
            a0 = na0;
            b1 = a1;
            a1 = na1;
        }
        r0 = r1;
        r1 = r2;
        t0 = t1;
        t1 = t2;
    }
    proof {
        let xi = x as int;
        let pi = p as int;
        let w = xi / pi;
        lemma_fundamental_div_mod(xi, pi);
        assert(xi == pi * w + x0);
        if r0 == 1 {
            lemma_mod_multiples_vanish(k0, 1, pi);
            lemma_small_mod(1, p as nat);
            assert(t0 * x0 == pi * k0 + 1) by (nonlinear_arith)
                requires
                    t0 * x0 == r0 + k0 * p,
                    r0 == 1,
                    pi == p,
            ;
            assert((x0 * t0) % pi == 1) by (nonlinear_arith)
                requires
                    (pi * k0 + 1) % pi == 1,
                    t0 * x0 == pi * k0 + 1,
            ;
            lemma_mul_mod_noop_left(xi, t0 as int, pi);
            assert(is_inverse(xi, t0 as int, pi));
            assert forall|d: int| !common_divisor(xi, pi, d) by {
                lemma_inverse_excludes_divisor(xi, t0 as int, pi, d);
            }
        } else {
            let d = r0 as int;
            let cx = a1 * w + a0;
            assert(pi == a1 * d) by (nonlinear_arith)
                requires
                    p == a1 * r0 + b1 * r1,
                    r1 == 0,
                    d == r0,
                    pi == p,
            ;
            assert(xi == cx * d) by (nonlinear_arith)
                requires
                    xi == pi * w + x0,
                    pi == a1 * d,
                    x0 == a0 * r0 + b0 * r1,
                    r1 == 0,
                    d == r0,
                    cx == a1 * w + a0,
            ;
            lemma_mod_multiples_basic(a1, d);
            lemma_mod_multiples_basic(cx, d);
            assert(common_divisor(xi, pi, d));
        }
    }
    if r0 == 1 {
        Some(t0)
    } else {
        None
    }
}

} // verus!
