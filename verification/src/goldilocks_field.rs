//! The prime field of order `2^64 - 2^32 + 1`.
//!
//! An element is stored as any `u64` congruent to it; its view is the
//! canonical value in `[0, ORDER)`. Every operation accepts any
//! representative and says which field element, and which representative
//! of it, comes out.

use crate::inversion::{
    common_divisor, is_inverse, lemma_inverse_unique, shares_divisor, try_inverse_u64,
};
use crate::primality::lemma_order_is_prime;
use num::BigUint;
use rand::rngs::StdRng;
use rand::Rng;
use vstd::arithmetic::div_mod::{
    lemma_add_mod_noop, lemma_mod_multiples_vanish, lemma_mul_mod_noop, lemma_small_mod,
    lemma_sub_mod_noop,
};
use vstd::prelude::*;
use vstd::std_specs::cmp::PartialEqSpecImpl;
use vstd::std_specs::ops::{AddSpecImpl, DivSpecImpl, MulSpecImpl, NegSpecImpl, SubSpecImpl};

verus! {

/// `2^32 - 1`, so that `ORDER == 2^64 - EPSILON`.
pub const EPSILON: u64 = 0xFFFF_FFFF;

/// The order of the field: `2^64 - 2^32 + 1`.
pub const ORDER: u64 = 0xFFFF_FFFF_0000_0001;

/// The largest `k` such that `2^k` divides `ORDER - 1`.
pub const TWO_ADICITY: usize = 32;

/// The characteristic of the field, its order.
pub const CHARACTERISTIC: u64 = 0xFFFF_FFFF_0000_0001;

/// A generator of the multiplicative group of the field.
pub const MULTIPLICATIVE_GROUP_GENERATOR: u64 = 7;

/// `MULTIPLICATIVE_GROUP_GENERATOR` to the power `(ORDER - 1) / 2^32`: a
/// generator of the subgroup of order `2^32`.
pub const POWER_OF_TWO_GENERATOR: u64 = 1753635133440165772;

/// An element of the field, held as a value congruent to it modulo `ORDER`.
#[derive(Copy, Clone, Debug)]
pub struct GoldilocksField(pub u64);

impl View for GoldilocksField {
    type V = int;

    /// The canonical value of the element.
    open spec fn view(&self) -> int {
        (self.0 as int) % (ORDER as int)
    }
}

/// The representative that adding the canonical value of `b` to the
/// representative `a` yields: the sum, less `ORDER` where it passes `2^64`.
pub open spec fn add_repr(a: u64, b: u64) -> int {
    let s = a as int + (b as int) % (ORDER as int);
    if s <= u64::MAX {
        s
    } else {
        s - ORDER as int
    }
}

/// The representative that subtracting the canonical value of `b` from the
/// representative `a` yields: the difference, plus `ORDER` where it is
/// negative.
pub open spec fn sub_repr(a: u64, b: u64) -> int {
    let d = a as int - (b as int) % (ORDER as int);
    if d >= 0 {
        d
    } else {
        d + ORDER as int
    }
}

/// The canonical value of the additive inverse of the element that `a`
/// represents.
pub open spec fn neg_repr(a: u64) -> int {
    let c = (a as int) % (ORDER as int);
    if c == 0 {
        0
    } else {
        ORDER as int - c
    }
}

/// The sum of the canonical values of `xs`, reduced.
pub open spec fn sum_values(xs: Seq<GoldilocksField>) -> int
    decreases xs.len(),
{
    if xs.len() == 0 {
        0
    } else {
        (sum_values(xs.drop_last()) + xs.last()@) % (ORDER as int)
    }
}

/// The product of the canonical values of `xs`, reduced.
pub open spec fn product_values(xs: Seq<GoldilocksField>) -> int
    decreases xs.len(),
{
    if xs.len() == 0 {
        1
    } else {
        (product_values(xs.drop_last()) * xs.last()@) % (ORDER as int)
    }
}

/// The sum of `xs` as the additions compute it, from zero, one element
/// after another.
pub open spec fn sum_fold(xs: Seq<GoldilocksField>) -> GoldilocksField
    decreases xs.len(),
{
    if xs.len() == 0 {
        GoldilocksField(0)
    } else {
        sum_fold(xs.drop_last()).spec_add(xs.last())
    }
}

/// The product of `xs` as the multiplications compute it, from one, one
/// element after another.
pub open spec fn product_fold(xs: Seq<GoldilocksField>) -> GoldilocksField
    decreases xs.len(),
{
    if xs.len() == 0 {
        GoldilocksField(1)
    } else {
        product_fold(xs.drop_last()).spec_mul(xs.last())
    }
}

/// The representative to which the fast reduction takes a 128-bit value.
///
/// With `x == lo + 2^64 * (2^32 * hh + hl)`, it is `lo - hh + hl * EPSILON`,
/// corrected by `ORDER` once where `lo - hh` is negative and once where the
/// sum passes `2^64`.
pub open spec fn reduce128_repr(x: u128) -> int {
    let lo = (x as int) % 0x1_0000_0000_0000_0000;
    let hi = (x as int) / 0x1_0000_0000_0000_0000;
    let hh = hi / 0x1_0000_0000;
    let hl = hi % 0x1_0000_0000;
    let t0 = if lo >= hh {
        lo - hh
    } else {
        lo - hh + ORDER as int
    };
    let t2 = t0 + hl * (EPSILON as int);
    if t2 <= u64::MAX {
        t2
    } else {
        t2 - ORDER as int
    }
}

/// The fast reduction keeps the residue: its result is congruent to `x`.
pub proof fn lemma_reduce128_congruent(x: u128)
    ensures
        0 <= reduce128_repr(x) <= u64::MAX,
        reduce128_repr(x) % (ORDER as int) == (x as int) % (ORDER as int),
{
    let p = ORDER as int;
    let lo = (x as int) % 0x1_0000_0000_0000_0000;
    let hi = (x as int) / 0x1_0000_0000_0000_0000;
    let hh = hi / 0x1_0000_0000;
    let hl = hi % 0x1_0000_0000;
    let r = reduce128_repr(x);
    let b: int = if lo >= hh { 0 } else { 1 };
    let t2 = lo - hh + b * p + hl * (EPSILON as int);
    let c: int = if t2 <= u64::MAX { 0 } else { 1 };
    assert(r == t2 - c * p);
    // 2^64 == ORDER + EPSILON and 2^96 + 1 == ORDER * (2^32 + 1).
    let k = hh * 0x1_0000_0001 + hl - b + c;
    assert(x as int == p * k + r);
    lemma_mod_multiples_vanish(k, r, p);
}

/// The addition yields a representative of the sum of the two values.
pub proof fn lemma_add_repr(a: u64, b: u64)
    ensures
        0 <= add_repr(a, b) <= u64::MAX,
        add_repr(a, b) % (ORDER as int) == ((a as int) % (ORDER as int) + (b as int) % (
        ORDER as int)) % (ORDER as int),
{
    let p = ORDER as int;
    let c = (b as int) % p;
    let s = a as int + c;
    lemma_add_mod_noop(a as int, c, p);
    lemma_small_mod(c as nat, p as nat);
    if s > u64::MAX {
        lemma_mod_multiples_vanish(-1, s, p);
    }
}

/// The subtraction yields a representative of the difference of the two
/// values.
pub proof fn lemma_sub_repr(a: u64, b: u64)
    ensures
        0 <= sub_repr(a, b) <= u64::MAX,
        sub_repr(a, b) % (ORDER as int) == ((a as int) % (ORDER as int) - (b as int) % (
        ORDER as int)) % (ORDER as int),
{
    let p = ORDER as int;
    let c = (b as int) % p;
    let d = a as int - c;
    lemma_sub_mod_noop(a as int, c, p);
    lemma_small_mod(c as nat, p as nat);
    if d < 0 {
        lemma_mod_multiples_vanish(1, d, p);
    }
}

/// The negation yields the canonical additive inverse.
pub proof fn lemma_neg_repr(a: u64)
    ensures
        0 <= neg_repr(a) < ORDER,
        neg_repr(a) == (-((a as int) % (ORDER as int))) % (ORDER as int),
{
    let p = ORDER as int;
    let c = (a as int) % p;
    if c != 0 {
        lemma_mod_multiples_vanish(1, -c, p);
        lemma_small_mod((p - c) as nat, p as nat);
    }
}

/// A canonical value other than zero shares no divisor with the order.
pub proof fn lemma_nonzero_is_coprime(c: int)
    requires
        0 < c < ORDER,
    ensures
        !shares_divisor(c, ORDER as int),
{
    let p = ORDER as int;
    lemma_order_is_prime();
    assert forall|d: int| !common_divisor(c, p, d) by {
        if common_divisor(c, p, d) {
            if d < p {
                assert(p % d != 0);
            } else if d == p {
                lemma_small_mod(c as nat, p as nat);
            } else {
                lemma_small_mod(p as nat, d as nat);
            }
        }
    }
}

/// Multiplying a quotient by the divisor gives the dividend back: with
/// `b * inv == 1`, `((a * inv) * b) == a`, all modulo the order.
pub proof fn lemma_div_undone(a: int, b: int, inv: int)
    requires
        0 <= a < ORDER,
        (b * inv) % (ORDER as int) == 1,
    ensures
        (((a * inv) % (ORDER as int)) * b) % (ORDER as int) == a,
{
    let p = ORDER as int;
    vstd::arithmetic::div_mod::lemma_mul_mod_noop_left(a * inv, b, p);
    assert((a * inv) * b == a * (b * inv)) by (nonlinear_arith);
    vstd::arithmetic::div_mod::lemma_mul_mod_noop_right(a, b * inv, p);
    lemma_small_mod(a as nat, p as nat);
}

/// Splits a 128-bit value into its low and high 64-bit halves.
pub fn split(x: u128) -> (r: (u64, u64))
    ensures
        r.0 as int == (x as int) % 0x1_0000_0000_0000_0000,
        r.1 as int == (x as int) / 0x1_0000_0000_0000_0000,
{
    let lo: u64 = (x & 0xFFFF_FFFF_FFFF_FFFF) as u64;
    let hi: u64 = (x >> 64) as u64;
    assert(x & 0xFFFF_FFFF_FFFF_FFFF == x % 0x1_0000_0000_0000_0000) by (bit_vector);
    assert(x >> 64 == x / 0x1_0000_0000_0000_0000) by (bit_vector);
    (lo, hi)
}

/// Reduces a 128-bit value to a representative of its residue, without a
/// division. The result may lie between `ORDER` and `2^64`.
pub fn reduce128(x: u128) -> (r: GoldilocksField)
    ensures
        r.0 as int == reduce128_repr(x),
        r@ == (x as int) % (ORDER as int),
{
    let (x_lo, x_hi) = split(x);
    let x_hi_hi: u64 = x_hi >> 32;
    let x_hi_lo: u64 = x_hi & EPSILON;
    assert(x_hi >> 32 == x_hi / 0x1_0000_0000) by (bit_vector);
    assert(x_hi & 0xFFFF_FFFF == x_hi % 0x1_0000_0000) by (bit_vector);

    let borrow: bool = x_lo < x_hi_hi;
    let mut t0: u64 = x_lo.wrapping_sub(x_hi_hi);
    if borrow {
        t0 = t0.wrapping_sub(EPSILON);
    }
    assert(x_hi_lo * EPSILON <= 0xFFFF_FFFF * 0xFFFF_FFFF) by (nonlinear_arith)
        requires
            x_hi_lo <= 0xFFFF_FFFF,
            EPSILON == 0xFFFF_FFFF,
    ;
    let t1: u64 = x_hi_lo * EPSILON;

    let mut t2: u64 = t1.wrapping_add(t0);
    let carry: bool = t2 < t1;
    if carry {
        t2 = t2.wrapping_add(EPSILON);
    }
    proof {
        lemma_reduce128_congruent(x);
    }
    GoldilocksField(t2)
}

impl GoldilocksField {
    /// The sum as the addition computes it.
    pub open spec fn spec_add(self, rhs: GoldilocksField) -> GoldilocksField {
        GoldilocksField(add_repr(self.0, rhs.0) as u64)
    }

    /// The difference as the subtraction computes it.
    pub open spec fn spec_sub(self, rhs: GoldilocksField) -> GoldilocksField {
        GoldilocksField(sub_repr(self.0, rhs.0) as u64)
    }

    /// The additive inverse as the negation computes it.
    pub open spec fn spec_neg(self) -> GoldilocksField {
        GoldilocksField(neg_repr(self.0) as u64)
    }

    /// The product as the multiplication computes it.
    pub open spec fn spec_mul(self, rhs: GoldilocksField) -> GoldilocksField {
        GoldilocksField(reduce128_repr((self.0 as int * rhs.0 as int) as u128) as u64)
    }

    /// The canonical multiplicative inverse; none for zero.
    pub open spec fn spec_inverse(self) -> Option<GoldilocksField> {
        if self@ == 0 {
            None
        } else {
            Some(GoldilocksField((choose|i: int| is_inverse(self@, i, ORDER as int)) as u64))
        }
    }

    /// The quotient as the division computes it: the product with the
    /// inverse of `rhs`.
    pub open spec fn spec_div(self, rhs: GoldilocksField) -> GoldilocksField {
        self.spec_mul(rhs.spec_inverse().unwrap())
    }

    /// The multiplicative inverse, canonical; `None` for zero and for
    /// nothing else.
    pub fn try_inverse(&self) -> (r: Option<GoldilocksField>)
        ensures
            r == self.spec_inverse(),
            r is None <==> self@ == 0,
            r matches Some(inv) ==> inv.0 < ORDER && (self@ * inv@) % (ORDER as int) == 1,
    {
        let c: u64 = self.to_canonical_u64();
        match try_inverse_u64(c, ORDER) {
            Some(inv) => {
                proof {
                    let p = ORDER as int;
                    lemma_small_mod(inv as nat, ORDER as nat);
                    assert(c != 0) by {
                        if c == 0 {
                            assert(c as int * inv as int == 0) by (nonlinear_arith)
                                requires
                                    c == 0,
                            ;
                        }
                    }
                    let w = choose|i: int| is_inverse(self@, i, p);
                    lemma_inverse_unique(self@, w, inv as int, p);
                }
                Some(GoldilocksField(inv))
            },
            None => {
                proof {
                    if c != 0 {
                        lemma_nonzero_is_coprime(c as int);
                    }
                }
                None
            },
        }
    }

    /// The multiplicative inverse of a nonzero element.
    pub fn inverse(&self) -> (r: GoldilocksField)
        requires
            self@ != 0,
        ensures
            Some(r) == self.spec_inverse(),
            r.0 < ORDER,
            (self@ * r@) % (ORDER as int) == 1,
    {
        self.try_inverse().unwrap()
    }

    /// The sum of the elements of `xs`; zero for none.
    pub fn sum(xs: &[GoldilocksField]) -> (r: GoldilocksField)
        ensures
            r == sum_fold(xs@),
            r@ == sum_values(xs@),
    {
        let mut acc = GoldilocksField(0);
        let mut i: usize = 0;
        assert(xs@.subrange(0, 0) =~= Seq::<GoldilocksField>::empty());
        while i < xs.len()
            invariant
                i <= xs.len(),
                acc == sum_fold(xs@.subrange(0, i as int)),
                acc@ == sum_values(xs@.subrange(0, i as int)),
            decreases xs.len() - i,
        {
            proof {
                let next = xs@.subrange(0, i + 1);
                assert(next.drop_last() =~= xs@.subrange(0, i as int));
                assert(next.last() == xs@[i as int]);
            }
            acc = acc + xs[i];
            i += 1;
        }
        assert(xs@.subrange(0, xs@.len() as int) =~= xs@);
        acc
    }

    /// The product of the elements of `xs`; one for none.
    pub fn product(xs: &[GoldilocksField]) -> (r: GoldilocksField)
        ensures
            r == product_fold(xs@),
            r@ == product_values(xs@),
    {
        let mut acc = GoldilocksField(1);
        let mut i: usize = 0;
        assert(xs@.subrange(0, 0) =~= Seq::<GoldilocksField>::empty());
        while i < xs.len()
            invariant
                i <= xs.len(),
                acc == product_fold(xs@.subrange(0, i as int)),
                acc@ == product_values(xs@.subrange(0, i as int)),
            decreases xs.len() - i,
        {
            proof {
                let next = xs@.subrange(0, i + 1);
                assert(next.drop_last() =~= xs@.subrange(0, i as int));
                assert(next.last() == xs@[i as int]);
            }
            acc = acc * xs[i];
            i += 1;
        }
        assert(xs@.subrange(0, xs@.len() as int) =~= xs@);
        acc
    }

    /// The order of the field as a big integer.
    pub fn order() -> (r: BigUint)
        ensures
            biguint_u64_digits(r) == seq![ORDER],
    {
        biguint_from_u64(ORDER)
    }

    /// An element drawn from the generator, in canonical form. Which one
    /// is up to the generator.
    pub fn rand_from_rng(rng: &mut StdRng) -> (r: GoldilocksField)
        ensures
            r.0 < ORDER,
            r@ == r.0,
    {
        GoldilocksField::from_canonical_u64(gen_below(rng, ORDER))
    }

    /// The additive identity.
    pub fn zero() -> (r: GoldilocksField)
        ensures
            r.0 == 0,
    {
        GoldilocksField(0)
    }

    /// The multiplicative identity.
    pub fn one() -> (r: GoldilocksField)
        ensures
            r.0 == 1,
    {
        GoldilocksField(1)
    }

    pub fn two() -> (r: GoldilocksField)
        ensures
            r.0 == 2,
    {
        GoldilocksField(2)
    }

    /// `ORDER - 1`, the additive inverse of one.
    pub fn neg_one() -> (r: GoldilocksField)
        ensures
            r.0 == ORDER - 1,
    {
        GoldilocksField(ORDER - 1)
    }

    /// A generator of the multiplicative group.
    pub fn multiplicative_group_generator() -> (r: GoldilocksField)
        ensures
            r.0 == MULTIPLICATIVE_GROUP_GENERATOR,
    {
        GoldilocksField(MULTIPLICATIVE_GROUP_GENERATOR)
    }

    /// A generator of the subgroup of order `2^32`.
    pub fn power_of_two_generator() -> (r: GoldilocksField)
        ensures
            r.0 == POWER_OF_TWO_GENERATOR,
    {
        GoldilocksField(POWER_OF_TWO_GENERATOR)
    }

    /// The element that the canonical value `n` represents. The value is
    /// stored as it is.
    pub fn from_canonical_u64(n: u64) -> (r: GoldilocksField)
        ensures
            r.0 == n,
            r@ == (n as int) % (ORDER as int),
            n < ORDER ==> r@ == n as int,
    {
        GoldilocksField(n)
    }

    /// The element that `n` represents.
    pub fn from_noncanonical_u64(n: u64) -> (r: GoldilocksField)
        ensures
            r.0 == n,
            r@ == (n as int) % (ORDER as int),
    {
        GoldilocksField(n)
    }

    /// The residue of a 128-bit value.
    pub fn from_noncanonical_u128(n: u128) -> (r: GoldilocksField)
        ensures
            r.0 as int == reduce128_repr(n),
            r@ == (n as int) % (ORDER as int),
    {
        reduce128(n)
    }

    /// The canonical value, in `[0, ORDER)`: one conditional subtraction,
    /// since `2 * ORDER` exceeds `2^64`.
    pub fn to_canonical_u64(&self) -> (c: u64)
        ensures
            c as int == self@,
            c < ORDER,
    {
        let mut c: u64 = self.0;
        if c >= ORDER {
            c = c - ORDER;
        }
        c
    }

    /// The stored representative, as it is.
    pub fn to_noncanonical_u64(&self) -> (c: u64)
        ensures
            c == self.0,
            (c as int) % (ORDER as int) == self@,
    {
        self.0
    }

    /// Whether the element is zero.
    pub fn is_zero(&self) -> (z: bool)
        ensures
            z == (self@ == 0),
    {
        self.to_canonical_u64() == 0
    }

    pub fn add_assign(&mut self, rhs: GoldilocksField)
        ensures
            *final(self) == old(self).spec_add(rhs),
            final(self)@ == (old(self)@ + rhs@) % (ORDER as int),
    {
        *self = *self + rhs;
    }

    pub fn sub_assign(&mut self, rhs: GoldilocksField)
        ensures
            *final(self) == old(self).spec_sub(rhs),
            final(self)@ == (old(self)@ - rhs@) % (ORDER as int),
    {
        *self = *self - rhs;
    }

    pub fn div_assign(&mut self, rhs: GoldilocksField)
        requires
            rhs@ != 0,
        ensures
            *final(self) == old(self).spec_div(rhs),
            (final(self)@ * rhs@) % (ORDER as int) == old(self)@,
    {
        *self = *self / rhs;
    }

    pub fn mul_assign(&mut self, rhs: GoldilocksField)
        ensures
            *final(self) == old(self).spec_mul(rhs),
            final(self)@ == (old(self)@ * rhs@) % (ORDER as int),
    {
        *self = *self * rhs;
    }
}

impl core::ops::Neg for GoldilocksField {
    type Output = GoldilocksField;

    /// The additive inverse, canonical.
    fn neg(self) -> (r: GoldilocksField)
        ensures
            r@ == (-self@) % (ORDER as int),
            r.0 < ORDER,
    {
        if self.is_zero() {
            GoldilocksField(0)
        } else {
            GoldilocksField(ORDER - self.to_canonical_u64())
        }
    }
}

impl NegSpecImpl for GoldilocksField {
    open spec fn obeys_neg_spec() -> bool {
        true
    }

    open spec fn neg_req(self) -> bool {
        true
    }

    open spec fn neg_spec(self) -> GoldilocksField {
        self.spec_neg()
    }
}

impl core::ops::Add for GoldilocksField {
    type Output = GoldilocksField;

    /// The sum: a wrapping addition of the canonical `rhs`, less `ORDER`
    /// where it overflowed.
    fn add(self, rhs: GoldilocksField) -> (r: GoldilocksField)
        ensures
            r@ == (self@ + rhs@) % (ORDER as int),
    {
        let c: u64 = rhs.to_canonical_u64();
        let sum: u64 = self.0.wrapping_add(c);
        let over: bool = sum < self.0;
        let out: u64 = if over {
            sum.wrapping_sub(ORDER)
        } else {
            sum
        };
        proof {
            if over {
                lemma_mod_multiples_vanish(-1, self.0 as int + c as int, ORDER as int);
            }
        }
        GoldilocksField(out)
    }
}

impl AddSpecImpl for GoldilocksField {
    open spec fn obeys_add_spec() -> bool {
        true
    }

    open spec fn add_req(self, rhs: GoldilocksField) -> bool {
        true
    }

    open spec fn add_spec(self, rhs: GoldilocksField) -> GoldilocksField {
        self.spec_add(rhs)
    }
}

impl core::ops::Sub for GoldilocksField {
    type Output = GoldilocksField;

    /// The difference: a wrapping subtraction of the canonical `rhs`, plus
    /// `ORDER` where it underflowed.
    fn sub(self, rhs: GoldilocksField) -> (r: GoldilocksField)
        ensures
            r@ == (self@ - rhs@) % (ORDER as int),
    {
        let c: u64 = rhs.to_canonical_u64();
        let diff: u64 = self.0.wrapping_sub(c);
        let under: bool = self.0 < c;
        let out: u64 = if under {
            diff.wrapping_add(ORDER)
        } else {
            diff
        };
        proof {
            if under {
                lemma_mod_multiples_vanish(1, self.0 as int - c as int, ORDER as int);
            }
        }
        GoldilocksField(out)
    }
}

impl SubSpecImpl for GoldilocksField {
    open spec fn obeys_sub_spec() -> bool {
        true
    }

    open spec fn sub_req(self, rhs: GoldilocksField) -> bool {
        true
    }

    open spec fn sub_spec(self, rhs: GoldilocksField) -> GoldilocksField {
        self.spec_sub(rhs)
    }
}

impl core::ops::Mul for GoldilocksField {
    type Output = GoldilocksField;

    /// The product: the 128-bit product of the representatives, reduced.
    fn mul(self, rhs: GoldilocksField) -> (r: GoldilocksField)
        ensures
            r@ == (self@ * rhs@) % (ORDER as int),
    {
        assert(self.0 * rhs.0 <= 0xFFFF_FFFF_FFFF_FFFF * 0xFFFF_FFFF_FFFF_FFFF) by (nonlinear_arith)
            requires
                self.0 <= 0xFFFF_FFFF_FFFF_FFFF,
                rhs.0 <= 0xFFFF_FFFF_FFFF_FFFF,
        ;
        proof {
            lemma_mul_mod_noop(self.0 as int, rhs.0 as int, ORDER as int);
        }
        reduce128((self.0 as u128) * (rhs.0 as u128))
    }
}

impl MulSpecImpl for GoldilocksField {
    open spec fn obeys_mul_spec() -> bool {
        true
    }

    open spec fn mul_req(self, rhs: GoldilocksField) -> bool {
        true
    }

    open spec fn mul_spec(self, rhs: GoldilocksField) -> GoldilocksField {
        self.spec_mul(rhs)
    }
}

impl DivSpecImpl for GoldilocksField {
    open spec fn obeys_div_spec() -> bool {
        true
    }

    open spec fn div_req(self, rhs: GoldilocksField) -> bool {
        rhs@ != 0
    }

    open spec fn div_spec(self, rhs: GoldilocksField) -> GoldilocksField {
        self.spec_div(rhs)
    }
}

impl core::ops::Div for GoldilocksField {
    type Output = GoldilocksField;

    /// The quotient by a nonzero element: the product with its inverse.
    fn div(self, rhs: GoldilocksField) -> (r: GoldilocksField)
        ensures
            (r@ * rhs@) % (ORDER as int) == self@,
    {
        let inv = rhs.inverse();
        let r = self * inv;
        proof {
            lemma_div_undone(self@, rhs@, inv@);
        }
        r
    }
}

impl PartialEq for GoldilocksField {
    /// Two elements are equal when their canonical values are.
    fn eq(&self, other: &GoldilocksField) -> (r: bool) {
        self.to_canonical_u64() == other.to_canonical_u64()
    }
}

impl PartialEqSpecImpl for GoldilocksField {
    open spec fn obeys_eq_spec() -> bool {
        true
    }

    open spec fn eq_spec(&self, other: &GoldilocksField) -> bool {
        self@ == other@
    }
}

impl Eq for GoldilocksField {

}

impl Default for GoldilocksField {
    /// Zero.
    fn default() -> (r: GoldilocksField)
        ensures
            r.0 == 0,
    {
        GoldilocksField(0)
    }
}

/// `num::BigUint`, an integer of any size.
#[verifier::external_type_specification]
#[verifier::external_body]
pub struct ExBigUint(num::BigUint);

/// `rand::rngs::StdRng`, the standard generator of the `rand` crate.
#[verifier::external_type_specification]
#[verifier::external_body]
pub struct ExStdRng(rand::rngs::StdRng);

/// The digits of a big integer in base `2^64`, lowest first, with no
/// leading zero: what `BigUint::to_u64_digits` returns.
pub uninterp spec fn biguint_u64_digits(b: BigUint) -> Seq<u64>;

/// `BigUint::from` on a `u64`: the big integer of the same value, which
/// has no digit where `n` is zero and the one digit `n` otherwise.
#[verifier::external_body]
fn biguint_from_u64(n: u64) -> (r: BigUint)
    ensures
        biguint_u64_digits(r) == (if n == 0 {
            Seq::<u64>::empty()
        } else {
            seq![n]
        }),
{
    BigUint::from(n)
}

/// `rand::Rng::gen_range` on `0..bound`: some value of the range, which
/// one is up to the generator. It panics on an empty range, so `bound`
/// must not be zero.
#[verifier::external_body]
fn gen_below(rng: &mut StdRng, bound: u64) -> (r: u64)
    requires
        bound > 0,
    ensures
        r < bound,
{
    rng.gen_range(0..bound)
}

} // verus!
