//! The extensions of the field by a root of `x^D - W`, for `D` 2 or 4.
//!
//! An element is the tuple of the `D` coefficients of a polynomial in the
//! root, lowest first; its view is the sequence of their canonical values.
//! Arithmetic is polynomial arithmetic modulo `x^D - W`.

use crate::goldilocks_field::{GoldilocksField, ORDER};
use vstd::arithmetic::div_mod::{lemma_add_mod_noop, lemma_mul_mod_noop_right};
use vstd::prelude::*;
use vstd::std_specs::cmp::PartialEqSpecImpl;

verus! {

/// The constant of the binomial `x^D - W`, a non-residue of the field.
pub const W: u64 = 7;

/// An element of the extension of degree `D`.
#[derive(Copy, Clone, Debug)]
pub struct Extension<const D: usize>(pub [GoldilocksField; D]);

/// The extension of degree 2.
pub type QuadraticExtension = Extension<2>;

/// The extension of degree 4.
pub type QuarticExtension = Extension<4>;

impl<const D: usize> View for Extension<D> {
    type V = Seq<int>;

    /// The canonical values of the coefficients, lowest first.
    open spec fn view(&self) -> Seq<int> {
        Seq::new(D as nat, |i: int| self.0@[i]@)
    }
}

/// The element of the extension of degree `d` that the field element `x` is.
pub open spec fn ext_lift(x: int, d: nat) -> Seq<int> {
    Seq::new(
        d,
        |i: int|
            if i == 0 {
                x
            } else {
                0
            },
    )
}

/// The sum of two elements, coefficient by coefficient.
pub open spec fn ext_add(a: Seq<int>, b: Seq<int>) -> Seq<int> {
    Seq::new(a.len(), |i: int| (a[i] + b[i]) % (ORDER as int))
}

/// The difference of two elements, coefficient by coefficient.
pub open spec fn ext_sub(a: Seq<int>, b: Seq<int>) -> Seq<int> {
    Seq::new(a.len(), |i: int| (a[i] - b[i]) % (ORDER as int))
}

/// The additive inverse of an element.
pub open spec fn ext_neg(a: Seq<int>) -> Seq<int> {
    Seq::new(a.len(), |i: int| (-a[i]) % (ORDER as int))
}

/// The product of an element and a field element.
pub open spec fn ext_scalar_mul(a: Seq<int>, s: int) -> Seq<int> {
    Seq::new(a.len(), |i: int| (a[i] * s) % (ORDER as int))
}

/// What coefficient `i` of `a` gives to coefficient `k` of the product
/// `a * b`: `a[i] * b[k - i]`, or, where the degrees add up to `k` plus
/// the degree of the extension, `W` times `a[i] * b[k + D - i]`.
pub open spec fn mul_term(a: Seq<int>, b: Seq<int>, k: int, i: int) -> int {
    if i <= k {
        a[i] * b[k - i]
    } else {
        (W as int) * (a[i] * b[k + a.len() - i])
    }
}

/// The sum of the first `n` terms of coefficient `k` of the product.
pub open spec fn mul_partial(a: Seq<int>, b: Seq<int>, k: int, n: int) -> int
    decreases n,
{
    if n <= 0 {
        0
    } else {
        mul_partial(a, b, k, n - 1) + mul_term(a, b, k, n - 1)
    }
}

/// The product of two elements: the product of the polynomials, reduced
/// modulo `x^D - W`.
pub open spec fn ext_mul(a: Seq<int>, b: Seq<int>) -> Seq<int> {
    Seq::new(a.len(), |k: int| mul_partial(a, b, k, a.len() as int) % (ORDER as int))
}

/// The value at `z` of the polynomial with the coefficients `coeffs`,
/// lowest first: `coeffs[0] + z * (the value of the rest)`.
pub open spec fn poly_eval(coeffs: Seq<int>, z: Seq<int>) -> Seq<int>
    decreases coeffs.len(),
{
    if coeffs.len() == 0 {
        ext_lift(0, z.len())
    } else {
        ext_add(ext_mul(poly_eval(coeffs.skip(1), z), z), ext_lift(coeffs[0], z.len()))
    }
}

/// The canonical values of a sequence of field elements.
pub open spec fn values(s: Seq<GoldilocksField>) -> Seq<int> {
    Seq::new(s.len(), |i: int| s[i]@)
}

impl<const D: usize> Extension<D> {
    /// The element with every coefficient zero.
    pub fn zero() -> (r: Self)
        ensures
            r@ == ext_lift(0, D as nat),
    {
        let r = Extension([GoldilocksField(0);D]);
        assert(r@ =~= ext_lift(0, D as nat));
        r
    }

    /// The multiplicative identity.
    pub fn one() -> (r: Self)
        requires
            D >= 1,
        ensures
            r@ == ext_lift(1, D as nat),
    {
        Self::from_basefield(GoldilocksField(1))
    }

    /// The field element `x` as an element of the extension.
    pub fn from_basefield(x: GoldilocksField) -> (r: Self)
        requires
            D >= 1,
        ensures
            r@ == ext_lift(x@, D as nat),
    {
        let mut out = [GoldilocksField(0);D];
        out[0] = x;
        let r = Extension(out);
        assert(r@ =~= ext_lift(x@, D as nat));
        r
    }

    /// The coefficients, lowest first.
    pub fn to_basefield_array(&self) -> (r: [GoldilocksField; D])
        ensures
            r == self.0,
    {
        self.0
    }

    pub fn add(self, rhs: Self) -> (r: Self)
        ensures
            r@ == ext_add(self@, rhs@),
    {
        let mut out = [GoldilocksField(0);D];
        let mut i: usize = 0;
        while i < D
            invariant
                i <= D,
                forall|j: int| 0 <= j < i ==> out@[j]@ == (self.0@[j]@ + rhs.0@[j]@) % (ORDER as int),
            decreases D - i,
        {
            out[i] = self.0[i] + rhs.0[i];
            i += 1;
        }
        let r = Extension(out);
        assert(r@ =~= ext_add(self@, rhs@));
        r
    }

    pub fn sub(self, rhs: Self) -> (r: Self)
        ensures
            r@ == ext_sub(self@, rhs@),
    {
        let mut out = [GoldilocksField(0);D];
        let mut i: usize = 0;
        while i < D
            invariant
                i <= D,
                forall|j: int| 0 <= j < i ==> out@[j]@ == (self.0@[j]@ - rhs.0@[j]@) % (ORDER as int),
            decreases D - i,
        {
            out[i] = self.0[i] - rhs.0[i];
            i += 1;
        }
        let r = Extension(out);
        assert(r@ =~= ext_sub(self@, rhs@));
        r
    }

    pub fn neg(self) -> (r: Self)
        ensures
            r@ == ext_neg(self@),
    {
        let mut out = [GoldilocksField(0);D];
        let mut i: usize = 0;
        while i < D
            invariant
                i <= D,
                forall|j: int| 0 <= j < i ==> out@[j]@ == (-self.0@[j]@) % (ORDER as int),
            decreases D - i,
        {
            out[i] = core::ops::Neg::neg(self.0[i]);
            i += 1;
        }
        let r = Extension(out);
        assert(r@ =~= ext_neg(self@));
        r
    }

    /// The product with a field element: every coefficient times `scalar`.
    pub fn scalar_mul(&self, scalar: GoldilocksField) -> (r: Self)
        ensures
            r@ == ext_scalar_mul(self@, scalar@),
    {
        let mut out = [GoldilocksField(0);D];
        let mut i: usize = 0;
        while i < D
            invariant
                i <= D,
                forall|j: int| 0 <= j < i ==> out@[j]@ == (self.0@[j]@ * scalar@) % (ORDER as int),
            decreases D - i,
        {
            out[i] = self.0[i] * scalar;
            i += 1;
        }
        let r = Extension(out);
        assert(r@ =~= ext_scalar_mul(self@, scalar@));
        r
    }

    /// The product, reduced modulo `x^D - W`.
    pub fn mul(self, rhs: Self) -> (r: Self)
        ensures
            r@ == ext_mul(self@, rhs@),
    {
        let ghost a = self@;
        let ghost b = rhs@;
        let ghost p = ORDER as int;
        let w = GoldilocksField(W);
        let mut out = [GoldilocksField(0);D];
        let mut k: usize = 0;
        while k < D
            invariant
                k <= D,
                a == self@,
                b == rhs@,
                p == ORDER as int,
                w.0 == W,
                forall|j: int| 0 <= j < k ==> out@[j]@ == mul_partial(a, b, j, D as int) % p,
            decreases D - k,
        {
            let mut acc = GoldilocksField(0);
            let mut i: usize = 0;
            while i < D
                invariant
                    i <= D,
                    k < D,
                    a == self@,
                    b == rhs@,
                    p == ORDER as int,
                    w.0 == W,
                    acc@ == mul_partial(a, b, k as int, i as int) % p,
                decreases D - i,
            {
                let t = if i <= k {
                    self.0[i] * rhs.0[k - i]
                } else {
                    let j: usize = D - (i - k);
                    proof {
                        lemma_mul_mod_noop_right(W as int, a[i as int] * b[j as int], p);
                    }
                    w * (self.0[i] * rhs.0[j])
                };
                proof {
                    assert(t@ == mul_term(a, b, k as int, i as int) % p);
                    lemma_add_mod_noop(
                        mul_partial(a, b, k as int, i as int),
                        mul_term(a, b, k as int, i as int),
                        p,
                    );
                }
                acc = acc + t;
                i += 1;
            }
            out[k] = acc;
            k += 1;
        }
        let r = Extension(out);
        assert(r@ =~= ext_mul(self@, rhs@));
        r
    }

    /// The value at `self` of the polynomial with the coefficients
    /// `coeffs`, lowest first, by Horner's rule from the highest down.
    pub fn eval_base_poly(&self, coeffs: &[GoldilocksField]) -> (r: Self)
        requires
            D >= 1,
        ensures
            r@ == poly_eval(values(coeffs@), self@),
    {
        let ghost c = values(coeffs@);
        let mut acc = Self::zero();
        let mut i: usize = coeffs.len();
        assert(c.subrange(i as int, c.len() as int) =~= Seq::<int>::empty());
        while i > 0
            invariant
                i <= coeffs.len(),
                D >= 1,
                c == values(coeffs@),
                acc@ == poly_eval(c.subrange(i as int, c.len() as int), self@),
            decreases i,
        {
            i -= 1;
            proof {
                let tail = c.subrange(i as int, c.len() as int);
                assert(tail.skip(1) =~= c.subrange(i + 1, c.len() as int));
                assert(tail[0] == coeffs@[i as int]@);
            }
            acc = acc.mul(*self).add(Self::from_basefield(coeffs[i]));
        }
        assert(c.subrange(0, c.len() as int) =~= c);
        acc
    }
}

impl Extension<2> {
    /// A generator of the multiplicative group of the quadratic extension.
    pub fn ext_multiplicative_group_generator() -> (r: Self)
        ensures
            r@ == seq![18081566051660590251int, 16121475356294670766int],
    {
        let r = Extension([GoldilocksField(18081566051660590251), GoldilocksField(16121475356294670766)]);
        assert(r@ =~= seq![18081566051660590251int, 16121475356294670766int]);
        r
    }

    /// A generator of the subgroup of order `2^33` of the quadratic
    /// extension.
    pub fn ext_power_of_two_generator() -> (r: Self)
        ensures
            r@ == seq![0int, 15659105665374529263int],
    {
        let r = Extension([GoldilocksField(0), GoldilocksField(15659105665374529263)]);
        assert(r@ =~= seq![0int, 15659105665374529263int]);
        r
    }
}

impl Extension<4> {
    /// A generator of the multiplicative group of the quartic extension.
    pub fn ext_multiplicative_group_generator() -> (r: Self)
        ensures
            r@ == seq![
                5024755240244648895int,
                13227474371289740625int,
                3912887029498544536int,
                3900057112666848848int,
            ],
    {
        let r = Extension(
            [
                GoldilocksField(5024755240244648895),
                GoldilocksField(13227474371289740625),
                GoldilocksField(3912887029498544536),
                GoldilocksField(3900057112666848848),
            ],
        );
        assert(r@ =~= seq![
            5024755240244648895int,
            13227474371289740625int,
            3912887029498544536int,
            3900057112666848848int,
        ]);
        r
    }

    /// A generator of the subgroup of order `2^34` of the quartic
    /// extension.
    pub fn ext_power_of_two_generator() -> (r: Self)
        ensures
            r@ == seq![0int, 0int, 0int, 12587610116473453104int],
    {
        let r = Extension(
            [
                GoldilocksField(0),
                GoldilocksField(0),
                GoldilocksField(0),
                GoldilocksField(12587610116473453104),
            ],
        );
        assert(r@ =~= seq![0int, 0int, 0int, 12587610116473453104int]);
        r
    }
}

impl<const D: usize> PartialEq for Extension<D> {
    /// Two elements are equal when their coefficients are.
    fn eq(&self, other: &Extension<D>) -> (r: bool) {
        let mut i: usize = 0;
        while i < D
            invariant
                i <= D,
                forall|j: int| 0 <= j < i ==> self.0@[j]@ == other.0@[j]@,
            decreases D - i,
        {
            if self.0[i] != other.0[i] {
                assert(self@[i as int] != other@[i as int]);
                return false;
            }
            i += 1;
        }
        assert(self@ =~= other@);
        true
    }
}

impl<const D: usize> PartialEqSpecImpl for Extension<D> {
    open spec fn obeys_eq_spec() -> bool {
        true
    }

    open spec fn eq_spec(&self, other: &Extension<D>) -> bool {
        self@ == other@
    }
}

impl<const D: usize> Eq for Extension<D> {

}

} // verus!
