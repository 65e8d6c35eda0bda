//! What holds of the arithmetic of the field, for all elements.

use crate::goldilocks_field::{
    lemma_add_repr, lemma_neg_repr, lemma_nonzero_is_coprime, lemma_reduce128_congruent,
    lemma_sub_repr, GoldilocksField, ORDER,
};
use crate::inversion::{is_inverse, lemma_coprime_has_inverse};
use vstd::arithmetic::div_mod::{lemma_mod_bound, lemma_mul_mod_noop, lemma_small_mod};
use vstd::prelude::*;

verus! {

/// The canonical value of an element lies in `[0, ORDER)`, and an element
/// held by its canonical value is that value: to canonicalize what is
/// canonical changes nothing.
pub proof fn lemma_canonical_is_fixed(a: GoldilocksField)
    ensures
        0 <= a@ < ORDER,
        a.0 < ORDER ==> a@ == a.0,
        GoldilocksField(a@ as u64)@ == a@,
{
    lemma_mod_bound(a.0 as int, ORDER as int);
    lemma_small_mod(a@ as nat, ORDER as nat);
    if a.0 < ORDER {
        lemma_small_mod(a.0 as nat, ORDER as nat);
    }
}

/// The sum that the wrapping addition computes is the sum of the
/// canonical values modulo the order.
pub proof fn lemma_add_value(a: GoldilocksField, b: GoldilocksField)
    ensures
        a.spec_add(b)@ == (a@ + b@) % (ORDER as int),
{
    lemma_add_repr(a.0, b.0);
}

/// The difference that the wrapping subtraction computes is the
/// difference of the canonical values modulo the order.
pub proof fn lemma_sub_value(a: GoldilocksField, b: GoldilocksField)
    ensures
        a.spec_sub(b)@ == (a@ - b@) % (ORDER as int),
{
    lemma_sub_repr(a.0, b.0);
}

/// The negation computes the additive inverse, in canonical form.
pub proof fn lemma_neg_value(a: GoldilocksField)
    ensures
        a.spec_neg()@ == (-a@) % (ORDER as int),
        a.spec_neg().0 < ORDER,
{
    lemma_neg_repr(a.0);
    lemma_small_mod(a.spec_neg().0 as nat, ORDER as nat);
}

/// The product that the fast reduction computes is the product of the
/// canonical values modulo the order.
pub proof fn lemma_mul_value(a: GoldilocksField, b: GoldilocksField)
    ensures
        a.spec_mul(b)@ == (a@ * b@) % (ORDER as int),
{
    assert(0 <= a.0 * b.0 <= 0xFFFF_FFFF_FFFF_FFFF * 0xFFFF_FFFF_FFFF_FFFF) by (nonlinear_arith)
        requires
            0 <= a.0 <= 0xFFFF_FFFF_FFFF_FFFF,
            0 <= b.0 <= 0xFFFF_FFFF_FFFF_FFFF,
    ;
    lemma_reduce128_congruent((a.0 as int * b.0 as int) as u128);
    lemma_mul_mod_noop(a.0 as int, b.0 as int, ORDER as int);
}

/// Every element but zero has an inverse, and the product of the element
/// and its inverse is one.
pub proof fn lemma_inverse_value(a: GoldilocksField)
    requires
        a@ != 0,
    ensures
        a.spec_inverse() matches Some(inv) && inv.0 < ORDER && (a@ * inv@) % (ORDER as int) == 1
            && a.spec_mul(inv)@ == 1,
{
    let p = ORDER as int;
    lemma_mod_bound(a.0 as int, p);
    lemma_nonzero_is_coprime(a@);
    lemma_coprime_has_inverse(a@, p);
    let i = choose|i: int| is_inverse(a@, i, p);
    let inv = GoldilocksField(i as u64);
    lemma_small_mod(i as nat, p as nat);
    lemma_mul_value(a, inv);
}

/// Zero has no inverse.
pub proof fn lemma_zero_has_no_inverse(a: GoldilocksField)
    requires
        a@ == 0,
    ensures
        a.spec_inverse() is None,
        forall|i: int| !is_inverse(a@, i, ORDER as int),
{
    assert forall|i: int| !is_inverse(a@, i, ORDER as int) by {
        assert(a@ * i == 0) by (nonlinear_arith)
            requires
                a@ == 0,
        ;
    }
}

} // verus!
