//! The order of the field is prime.
//!
//! The proof follows Pocklington's argument. The generator `G` of the
//! two-adic subgroup satisfies `G^(2^31) == -1`, so modulo any divisor
//! `m > 1` of the order its first `2^32` powers are pairwise distinct.
//! Hence `m > 2^32`, and two such divisors cannot multiply to a number
//! below `2^64`.

use crate::goldilocks_field::{ORDER, POWER_OF_TWO_GENERATOR};
use vstd::arithmetic::div_mod::{
    lemma_fundamental_div_mod, lemma_mod_mod, lemma_mod_multiples_basic,
    lemma_mod_multiples_vanish, lemma_mul_mod_noop, lemma_small_mod, lemma_mul_mod_noop_left,
    lemma_mul_mod_noop_right,
};
use vstd::arithmetic::power::{
    lemma1_pow, lemma_pow0, lemma_pow1, lemma_pow_adds, lemma_pow_mod_noop, lemma_pow_multiplies,
    pow,
};
use vstd::arithmetic::power2::{lemma2_to64, lemma_pow2_unfold, pow2};
use vstd::prelude::*;

verus! {

/// `p` has no divisor strictly between 1 and itself.
pub open spec fn is_prime(p: int) -> bool {
    p > 1 && forall|d: int| 1 < d < p ==> #[trigger] (p % d) != 0
}

/// Squaring doubles the exponent, also modulo `m`.
pub proof fn lemma_pow_mod_square(x: int, e: nat, m: int, y: int, y2: int)
    requires
        m > 0,
        pow(x, e) % m == y,
        (y * y) % m == y2,
    ensures
        pow(x, 2 * e) % m == y2,
{
    lemma_pow_adds(x, e, e);
    lemma_mul_mod_noop(pow(x, e), pow(x, e), m);
}

/// `G^(2^31) == -1` and `G^(2^32) == 1` modulo the order.
pub proof fn lemma_generator_order()
    ensures
        pow(POWER_OF_TWO_GENERATOR as int, 0x8000_0000) % (ORDER as int) == ORDER - 1,
        pow(POWER_OF_TWO_GENERATOR as int, 0x1_0000_0000) % (ORDER as int) == 1,
{
    let g = POWER_OF_TWO_GENERATOR as int;
    let p = ORDER as int;
    lemma_pow1(g);
    lemma_pow_mod_square(g, 0x1, p, 0x185629dcda58878c, 0x400a7f755588e659);
    lemma_pow_mod_square(g, 0x2, p, 0x400a7f755588e659, 0x7e9bd009b86a0845);
    lemma_pow_mod_square(g, 0x4, p, 0x7e9bd009b86a0845, 0xdfa8c93ba46d2666);
    lemma_pow_mod_square(g, 0x8, p, 0xdfa8c93ba46d2666, 0x59049500004a4485);
    lemma_pow_mod_square(g, 0x10, p, 0x59049500004a4485, 0x10d78dd8915a171d);
    lemma_pow_mod_square(g, 0x20, p, 0x10d78dd8915a171d, 0xed41d05b78d6e286);
    lemma_pow_mod_square(g, 0x40, p, 0xed41d05b78d6e286, 0x4bbaf5976ecfefd8);
    lemma_pow_mod_square(g, 0x80, p, 0x4bbaf5976ecfefd8, 0x86cdcc31c307e171);
    lemma_pow_mod_square(g, 0x100, p, 0x86cdcc31c307e171, 0xea9d5a1336fbc98b);
    lemma_pow_mod_square(g, 0x200, p, 0xea9d5a1336fbc98b, 0x4b2a18ade67246b5);
    lemma_pow_mod_square(g, 0x400, p, 0x4b2a18ade67246b5, 0xf502aef532322654);
    lemma_pow_mod_square(g, 0x800, p, 0xf502aef532322654, 0x30ba2ecd5e93e76d);
    lemma_pow_mod_square(g, 0x1000, p, 0x30ba2ecd5e93e76d, 0xfbd41c6b8caa3302);
    lemma_pow_mod_square(g, 0x2000, p, 0xfbd41c6b8caa3302, 0x81281a7b05f9beac);
    lemma_pow_mod_square(g, 0x4000, p, 0x81281a7b05f9beac, 0xabd0a6e8aa3d8a0e);
    lemma_pow_mod_square(g, 0x8000, p, 0xabd0a6e8aa3d8a0e, 0x54df9630bf79450e);
    lemma_pow_mod_square(g, 0x10000, p, 0x54df9630bf79450e, 0xf6b2cffe2306baac);
    lemma_pow_mod_square(g, 0x20000, p, 0xf6b2cffe2306baac, 0xe0ee099310bba1e2);
    lemma_pow_mod_square(g, 0x40000, p, 0xe0ee099310bba1e2, 0x1544ef2335d17997);
    lemma_pow_mod_square(g, 0x80000, p, 0x1544ef2335d17997, 0xf2c35199959dfcb6);
    lemma_pow_mod_square(g, 0x100000, p, 0xf2c35199959dfcb6, 0x653b4801da1c8cf);
    lemma_pow_mod_square(g, 0x200000, p, 0x653b4801da1c8cf, 0x9d8f2ad78bfed972);
    lemma_pow_mod_square(g, 0x400000, p, 0x9d8f2ad78bfed972, 0x1905d02a5c411f4e);
    lemma_pow_mod_square(g, 0x800000, p, 0x1905d02a5c411f4e, 0xbf79143ce60ca966);
    lemma_pow_mod_square(g, 0x1000000, p, 0xbf79143ce60ca966, 0xf80007ff08000001);
    lemma_pow_mod_square(g, 0x2000000, p, 0xf80007ff08000001, 0x8000000000);
    lemma_pow_mod_square(g, 0x4000000, p, 0x8000000000, 0x3fffffffc000);
    lemma_pow_mod_square(g, 0x8000000, p, 0x3fffffffc000, 0xefffffff00000001);
    lemma_pow_mod_square(g, 0x10000000, p, 0xefffffff00000001, 0xfffffffeff000001);
    lemma_pow_mod_square(g, 0x20000000, p, 0xfffffffeff000001, 0x1000000000000);
    lemma_pow_mod_square(g, 0x40000000, p, 0x1000000000000, 0xffffffff00000000);
    lemma_pow_mod_square(g, 0x80000000, p, 0xffffffff00000000, 0x1);
}

/// A residue below the modulus is its own remainder; so are 1 and `m - 1`.
proof fn lemma_residues(m: int)
    requires
        m > 1,
    ensures
        1int % m == 1,
        (m - 1) % m == m - 1,
{
    lemma_small_mod(1, m as nat);
    lemma_small_mod((m - 1) as nat, m as nat);
}

/// Modulo `m`, a power of an element congruent to `-1` is `-1` or `1`,
/// as the exponent is odd or even.
proof fn lemma_pow_minus_one(z: int, k: nat, m: int)
    requires
        m > 1,
        z % m == m - 1,
    ensures
        pow(z, k) % m == (if k % 2 == 1 { m - 1 } else { 1 }),
    decreases k,
{
    lemma_residues(m);
    if k == 0 {
        lemma_pow0(z);
    } else {
        let j = (k - 1) as nat;
        lemma_pow_minus_one(z, j, m);
        lemma_pow_adds(z, 1, j);
        lemma_pow1(z);
        lemma_mul_mod_noop(z, pow(z, j), m);
        if j % 2 == 1 {
            assert((m - 1) * (m - 1) == m * (m - 2) + 1) by (nonlinear_arith);
            lemma_mod_multiples_vanish(m - 2, 1, m);
        } else {
            assert((m - 1) * 1 == m - 1);
        }
    }
}

/// Modulo an odd `m > 1` in which `G^(2^31) == -1`, no power `G^(2^s * k)`
/// with `0 < k < 2^(32 - s)` is 1.
pub proof fn lemma_no_small_order(m: int, s: nat, k: nat)
    requires
        m > 1,
        m % 2 == 1,
        pow(POWER_OF_TWO_GENERATOR as int, 0x8000_0000) % m == m - 1,
        s <= 31,
        0 < k < pow2((32 - s) as nat),
    ensures
        pow(POWER_OF_TWO_GENERATOR as int, pow2(s) * k) % m != 1,
    decreases k,
{
    let g = POWER_OF_TWO_GENERATOR as int;
    let e = pow2(s) * k;
    lemma2_to64();
    lemma_residues(m);
    if pow(g, e) % m == 1 {
        if k % 2 == 1 {
            let t = (31 - s) as nat;
            let w = pow(g, e);
            // On one hand (G^e)^(2^t) == 1.
            lemma_pow_mod_noop(w, pow2(t), m);
            lemma1_pow(pow2(t));
            assert(pow(w, pow2(t)) % m == 1);
            // On the other it is (G^(2^31))^k == -1.
            vstd::arithmetic::power2::lemma_pow2_adds(s, t);
            assert(e * pow2(t) == 0x8000_0000 * k) by (nonlinear_arith)
                requires
                    e == pow2(s) * k,
                    pow2(s) * pow2(t) == 0x8000_0000,
            ;
            lemma_pow_multiplies(g, e, pow2(t));
            lemma_pow_multiplies(g, 0x8000_0000, k);
            lemma_pow_minus_one(pow(g, 0x8000_0000), k, m);
            assert(false);
        } else {
            let h = (k / 2) as nat;
            lemma_pow2_unfold((32 - s) as nat);
            lemma_pow2_unfold(s + 1);
            assert(pow2(s + 1) * h == e) by (nonlinear_arith)
                requires
                    e == pow2(s) * k,
                    k == 2 * h,
                    pow2(s + 1) == 2 * pow2(s),
            ;
            lemma_no_small_order(m, s + 1, h);
            assert(false);
        }
    }
}

/// Modulo a divisor `m > 1` of the order, the powers of `G` with exponents
/// below `2^32` are pairwise distinct.
proof fn lemma_distinct_powers(m: int, i: nat, j: nat)
    requires
        m > 1,
        (ORDER as int) % m == 0,
        i < j < 0x1_0000_0000,
    ensures
        pow(POWER_OF_TWO_GENERATOR as int, i) % m != pow(POWER_OF_TWO_GENERATOR as int, j) % m,
{
    let g = POWER_OF_TWO_GENERATOR as int;
    let p = ORDER as int;
    let c = p / m;
    lemma_fundamental_div_mod(p, m);
    assert(p == m * c);
    // The order is odd, so m is.
    if m % 2 == 0 {
        let m2 = m / 2;
        assert(m * c == 2 * (m2 * c)) by (nonlinear_arith)
            requires
                m == 2 * m2,
        ;
        assert(false);
    }
    assert(c > 0) by (nonlinear_arith)
        requires
            p == m * c,
            p > 0,
            m > 1,
    ;
    lemma_generator_order();
    lemma_residues(m);
    lemma_mod_mod(pow(g, 0x8000_0000), m, c);
    lemma_mod_mod(pow(g, 0x1_0000_0000), m, c);
    assert((p - 1) % m == m - 1) by {
        lemma_mod_multiples_vanish(c, -1, m);
        assert(m * c + (-1) == p - 1);
        lemma_mod_multiples_vanish(-1, m - 1, m);
    }
    assert(pow(g, 0x8000_0000) % m == m - 1);
    assert(pow(g, 0x1_0000_0000) % m == 1);

    let k = (j - i) as nat;
    let r = (0x1_0000_0000 - i) as nat;
    if pow(g, i) % m == pow(g, j) % m {
        let a = pow(g, i);
        let b = pow(g, k);
        let d = pow(g, r);
        lemma_pow_adds(g, i, k);
        lemma_pow_adds(g, i, r);
        assert(pow(g, j) == a * b);
        assert(pow(g, 0x1_0000_0000) == a * d);
        // b == b * (a * d) == (a * b) * d == a * d == 1, all modulo m.
        lemma_mul_mod_noop_right(b, a * d, m);
        assert((b * (a * d)) % m == (b * 1) % m);
        assert(b * (a * d) == (a * b) * d) by (nonlinear_arith);
        lemma_mul_mod_noop_left(a * b, d, m);
        lemma_mul_mod_noop_left(a, d, m);
        assert(b % m == 1);
        lemma2_to64();
        assert(pow2(0) * k == k);
        lemma_no_small_order(m, 0, k);
        assert(false);
    }
}

/// Whether `f` takes the same value at `i` and at `j`, two places below `n`.
pub open spec fn collides(f: spec_fn(int) -> int, n: int, i: int, j: int) -> bool {
    0 <= i < j < n && f(i) == f(j)
}

/// Whether `f` maps `[0, n)` into `[0, m)`.
pub open spec fn maps_below(f: spec_fn(int) -> int, n: int, m: int) -> bool {
    forall|i: int| 0 <= i < n ==> 0 <= #[trigger] f(i) < m
}

/// A map from `n` places into fewer than `n` values takes some value twice.
pub proof fn lemma_pigeonhole(f: spec_fn(int) -> int, n: int, m: int)
    requires
        0 <= m < n,
        maps_below(f, n, m),
    ensures
        exists|i: int, j: int| collides(f, n, i, j),
    decreases m,
{
    if m == 0 {
        assert(0 <= f(0) < m);
    } else {
        let v = f(n - 1);
        assert(0 <= v < m);
        if exists|i: int| 0 <= i < n - 1 && #[trigger] f(i) == v {
            let i = choose|i: int| 0 <= i < n - 1 && #[trigger] f(i) == v;
            assert(collides(f, n, i, n - 1));
        } else {
            let h = |i: int|
                if f(i) > v {
                    f(i) - 1
                } else {
                    f(i)
                };
            assert forall|i: int| 0 <= i < n - 1 implies 0 <= #[trigger] h(i) < m - 1 by {
                assert(0 <= f(i) < m);
                assert(f(i) != v);
            }
            let n1 = n - 1;
            lemma_pigeonhole(h, n1, m - 1);
            let (i, j) = choose|i: int, j: int| collides(h, n1, i, j);
            assert(f(i) != v && f(j) != v);
            assert(collides(f, n, i, j));
        }
    }
}

/// A divisor of the order other than 1 exceeds `2^32`.
pub proof fn lemma_divisor_is_large(m: int)
    requires
        m > 1,
        (ORDER as int) % m == 0,
    ensures
        m > 0x1_0000_0000,
{
    if m < 0x1_0000_0000 {
        let g = POWER_OF_TWO_GENERATOR as int;
        let f = |i: int| pow(g, i as nat) % m;
        assert forall|i: int| 0 <= i < 0x1_0000_0000 implies 0 <= #[trigger] f(i) < m by {
            vstd::arithmetic::div_mod::lemma_mod_bound(pow(g, i as nat), m);
        }
        lemma_pigeonhole(f, 0x1_0000_0000, m);
        let (i, j) = choose|i: int, j: int| collides(f, 0x1_0000_0000, i, j);
        lemma_distinct_powers(m, i as nat, j as nat);
        assert(false);
    }
    if m == 0x1_0000_0000 {
        assert((ORDER as int) % 0x1_0000_0000 == 1);
    }
}

/// The order of the field is a prime number.
pub proof fn lemma_order_is_prime()
    ensures
        is_prime(ORDER as int),
{
    let p = ORDER as int;
    assert forall|d: int| 1 < d < p implies #[trigger] (p % d) != 0 by {
        if p % d == 0 {
            let e = p / d;
            lemma_fundamental_div_mod(p, d);
            assert(p == d * e);
            assert(e > 1) by (nonlinear_arith)
                requires
                    p == d * e,
                    1 < d < p,
            ;
            assert(p == e * d) by (nonlinear_arith)
                requires
                    p == d * e,
            ;
            lemma_mod_multiples_basic(d, e);
            lemma_divisor_is_large(d);
            lemma_divisor_is_large(e);
            assert(d * e > 0x1_0000_0000 * 0x1_0000_0000) by (nonlinear_arith)
                requires
                    d > 0x1_0000_0000,
                    e > 0x1_0000_0000,
            ;
            assert(false);
        }
    }
}

} // verus!
