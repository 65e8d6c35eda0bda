use goldilocks_stark::goldilocks_field::{
    reduce128, split, GoldilocksField, CHARACTERISTIC, EPSILON, MULTIPLICATIVE_GROUP_GENERATOR,
    ORDER, POWER_OF_TWO_GENERATOR, TWO_ADICITY,
};
use goldilocks_stark::inversion::try_inverse_u64;
use rand::rngs::StdRng;
use rand::SeedableRng;

const P: u128 = 0xFFFF_FFFF_0000_0001;

/// A few representatives, canonical and not, at and around the edges.
fn samples() -> Vec<u64> {
    vec![
        0,
        1,
        2,
        7,
        0xFFFF_FFFF,
        0x1_0000_0000,
        0x1234_5678_9ABC_DEF0,
        ORDER - 2,
        ORDER - 1,
        ORDER,
        ORDER + 1,
        u64::MAX - 1,
        u64::MAX,
    ]
}

fn pow(base: GoldilocksField, mut e: u64) -> GoldilocksField {
    let mut acc = GoldilocksField::one();
    let mut b = base;
    while e > 0 {
        if e & 1 == 1 {
            acc = acc * b;
        }
        b = b * b;
        e >>= 1;
    }
    acc
}

#[test]
fn order_is_two_to_64_minus_two_to_32_plus_one() {
    assert_eq!(ORDER as u128, (1u128 << 64) - (1u128 << 32) + 1);
    assert_eq!(EPSILON as u128, (1u128 << 32) - 1);
    assert_eq!(ORDER as u128 + EPSILON as u128, 1u128 << 64);
    assert_eq!(CHARACTERISTIC, ORDER);
}

#[test]
fn split_takes_the_two_halves() {
    let x: u128 = (7u128 << 64) | 9u128;
    assert_eq!(split(x), (9, 7));
    assert_eq!(split(0), (0, 0));
    assert_eq!(split(u128::MAX), (u64::MAX, u64::MAX));
}

#[test]
fn reduce128_of_a_small_value_is_the_value() {
    assert_eq!(reduce128(5).to_canonical_u64(), 5);
    assert_eq!(reduce128(ORDER as u128).to_canonical_u64(), 0);
}

#[test]
fn reduce128_agrees_with_the_remainder() {
    let xs: Vec<u128> = vec![
        0,
        1,
        P - 1,
        P,
        P + 1,
        1u128 << 64,
        (1u128 << 96) - 1,
        1u128 << 96,
        (P - 1) * (P - 1),
        (u64::MAX as u128) * (u64::MAX as u128),
        u128::MAX,
        0x0123_4567_89AB_CDEF_0FED_CBA9_8765_4321,
    ];
    for x in xs {
        assert_eq!(reduce128(x).to_canonical_u64() as u128, x % P);
    }
}

#[test]
fn reduce128_gives_the_stated_representative() {
    // lo = 0, hh = 1, hl = 0: the subtraction borrows and ORDER is added.
    let x: u128 = 1u128 << 96;
    assert_eq!(reduce128(x).0, ORDER - 1);
    // lo = 2^64 - 1, hh = 0, hl = 1: the sum passes 2^64.
    let y: u128 = (1u128 << 64) | (u64::MAX as u128);
    assert_eq!(reduce128(y).0 as u128, (u64::MAX as u128) + (EPSILON as u128) - P);
}

#[test]
fn add_agrees_with_reference_arithmetic() {
    for a in samples() {
        for b in samples() {
            let got = (GoldilocksField(a) + GoldilocksField(b)).to_canonical_u64() as u128;
            let want = ((a as u128 % P) + (b as u128 % P)) % P;
            assert_eq!(got, want);
        }
    }
}

#[test]
fn add_corrects_once_on_overflow() {
    // u64::MAX + (ORDER - 1) wraps; the result is the sum less ORDER.
    let r = GoldilocksField(u64::MAX) + GoldilocksField(ORDER - 1);
    assert_eq!(r.0 as u128, (u64::MAX as u128) + (P - 1) - P);
    // No overflow: the representative is the plain sum.
    let s = GoldilocksField(5) + GoldilocksField(ORDER + 3);
    assert_eq!(s.0, 8);
}

#[test]
fn sub_agrees_with_reference_arithmetic() {
    for a in samples() {
        for b in samples() {
            let got = (GoldilocksField(a) - GoldilocksField(b)).to_canonical_u64() as u128;
            let want = ((a as u128 % P) + P - (b as u128 % P)) % P;
            assert_eq!(got, want);
        }
    }
}

#[test]
fn sub_corrects_once_on_underflow() {
    let r = GoldilocksField(0) - GoldilocksField(1);
    assert_eq!(r.0, ORDER - 1);
    let s = GoldilocksField(u64::MAX) - GoldilocksField(1);
    assert_eq!(s.0, u64::MAX - 1);
}

#[test]
fn neg_is_order_minus_canonical_or_zero() {
    assert_eq!((-GoldilocksField(0)).0, 0);
    assert_eq!((-GoldilocksField(ORDER)).0, 0);
    assert_eq!((-GoldilocksField(1)).0, ORDER - 1);
    assert_eq!((-GoldilocksField(ORDER + 1)).0, ORDER - 1);
    for a in samples() {
        let x = GoldilocksField(a);
        assert_eq!((x + (-x)).to_canonical_u64(), 0);
    }
}

#[test]
fn mul_agrees_with_reference_arithmetic() {
    for a in samples() {
        for b in samples() {
            let got = (GoldilocksField(a) * GoldilocksField(b)).to_canonical_u64() as u128;
            let want = ((a as u128 % P) * (b as u128 % P)) % P;
            assert_eq!(got, want);
        }
    }
}

#[test]
fn mul_of_boundary_values() {
    let a = GoldilocksField(ORDER - 1);
    let b = GoldilocksField(ORDER - 1);
    assert_eq!((a * b).to_canonical_u64() as u128, ((P - 1) * (P - 1)) % P);
    assert_eq!((a * b).to_canonical_u64(), 1);
    assert_eq!((GoldilocksField(0) * b).to_canonical_u64(), 0);
    assert_eq!((a * GoldilocksField(0)).to_canonical_u64(), 0);
}

#[test]
fn canonicalizing_a_canonical_value_is_the_identity() {
    for a in [0u64, 1, 12345, ORDER - 1] {
        assert_eq!(GoldilocksField(a).to_canonical_u64(), a);
        assert_eq!(GoldilocksField::from_canonical_u64(a).to_canonical_u64(), a);
        let once = GoldilocksField(a).to_canonical_u64();
        assert_eq!(GoldilocksField(once).to_canonical_u64(), once);
    }
}

#[test]
fn canonicalizing_subtracts_the_order_at_most_once() {
    assert_eq!(GoldilocksField(ORDER).to_canonical_u64(), 0);
    assert_eq!(GoldilocksField(ORDER + 5).to_canonical_u64(), 5);
    assert_eq!(GoldilocksField(u64::MAX).to_canonical_u64(), EPSILON - 1);
    assert_eq!(GoldilocksField(u64::MAX).to_noncanonical_u64(), u64::MAX);
    assert_eq!(GoldilocksField::from_noncanonical_u64(u64::MAX).0, u64::MAX);
}

#[test]
fn from_noncanonical_u128_reduces() {
    let x: u128 = 0xFFFF_FFFF_FFFF_FFFF_FFFF_FFFF_FFFF_FFFF;
    assert_eq!(GoldilocksField::from_noncanonical_u128(x).to_canonical_u64() as u128, x % P);
}

#[test]
fn inverse_of_zero_is_none() {
    assert!(GoldilocksField(0).try_inverse().is_none());
    assert!(GoldilocksField(ORDER).try_inverse().is_none());
}

#[test]
fn element_times_inverse_is_one() {
    for a in samples() {
        let x = GoldilocksField(a);
        if x.is_zero() {
            continue;
        }
        let inv = x.try_inverse().unwrap();
        assert!(inv.0 < ORDER);
        assert_eq!((x * inv).to_canonical_u64(), 1);
        assert_eq!(x.inverse().0, inv.0);
    }
}

#[test]
fn inverse_of_known_values() {
    assert_eq!(GoldilocksField(1).try_inverse().unwrap().0, 1);
    // 2 * (ORDER + 1) / 2 == ORDER + 1 == 1.
    assert_eq!(GoldilocksField(2).try_inverse().unwrap().0, (ORDER + 1) / 2);
    assert_eq!(GoldilocksField(ORDER - 1).try_inverse().unwrap().0, ORDER - 1);
}

#[test]
fn try_inverse_u64_with_other_moduli() {
    assert_eq!(try_inverse_u64(3, 7), Some(5));
    assert_eq!(try_inverse_u64(10, 7), Some(5));
    assert_eq!(try_inverse_u64(0, 7), None);
    assert_eq!(try_inverse_u64(4, 6), None);
    assert_eq!(try_inverse_u64(5, 6), Some(5));
    assert_eq!(try_inverse_u64(1, 1), None);
    assert_eq!(try_inverse_u64(1, 0), None);
    assert_eq!(try_inverse_u64(1, 2), Some(1));
    assert_eq!(try_inverse_u64(u64::MAX, u64::MAX - 1), Some(1));
}

#[test]
fn div_undoes_mul() {
    let a = GoldilocksField(0x1234_5678_9ABC_DEF0);
    let b = GoldilocksField(u64::MAX);
    let q = a / b;
    assert_eq!((q * b).to_canonical_u64(), a.to_canonical_u64());
    assert_eq!((a / a).to_canonical_u64(), 1);
}

#[test]
fn assigning_operators_agree_with_the_operators() {
    let a = GoldilocksField(u64::MAX - 3);
    let b = GoldilocksField(ORDER - 7);
    let mut x = a;
    x.add_assign(b);
    assert_eq!(x.0, (a + b).0);
    let mut y = a;
    y.sub_assign(b);
    assert_eq!(y.0, (a - b).0);
    let mut z = a;
    z.mul_assign(b);
    assert_eq!(z.0, (a * b).0);
    let mut w = a;
    w.div_assign(b);
    assert_eq!(w.0, (a / b).0);
}

#[test]
fn equality_is_of_canonical_values() {
    assert!(GoldilocksField(0) == GoldilocksField(ORDER));
    assert!(GoldilocksField(3) == GoldilocksField(ORDER + 3));
    assert!(GoldilocksField(3) != GoldilocksField(4));
    assert!(GoldilocksField::default() == GoldilocksField::zero());
}

#[test]
fn constants_have_their_values() {
    assert_eq!(GoldilocksField::zero().0, 0);
    assert_eq!(GoldilocksField::one().0, 1);
    assert_eq!(GoldilocksField::two().0, 2);
    assert_eq!(GoldilocksField::neg_one().0, ORDER - 1);
    assert!(GoldilocksField::neg_one() == -GoldilocksField::one());
    assert_eq!(GoldilocksField::multiplicative_group_generator().0, 7);
    assert_eq!(MULTIPLICATIVE_GROUP_GENERATOR, 7);
    assert_eq!(GoldilocksField::power_of_two_generator().0, 1753635133440165772);
    assert_eq!(TWO_ADICITY, 32);
    assert_eq!((ORDER - 1) % (1u64 << 32), 0);
    assert_eq!(((ORDER - 1) >> 32) % 2, 1);
}

#[test]
fn power_of_two_generator_has_order_two_to_32() {
    let g = GoldilocksField(POWER_OF_TWO_GENERATOR);
    assert_eq!(pow(g, 1u64 << 31).to_canonical_u64(), ORDER - 1);
    assert_eq!(pow(g, 1u64 << 32).to_canonical_u64(), 1);
    let m = GoldilocksField(MULTIPLICATIVE_GROUP_GENERATOR);
    assert_eq!(pow(m, (ORDER - 1) >> 32).to_canonical_u64(), POWER_OF_TWO_GENERATOR);
}

#[test]
fn multiplicative_generator_has_full_order() {
    let m = GoldilocksField(MULTIPLICATIVE_GROUP_GENERATOR);
    assert_eq!(pow(m, ORDER - 1).to_canonical_u64(), 1);
    for q in [2u64, 3, 5, 17, 257, 65537] {
        assert_eq!((ORDER - 1) % q, 0);
        assert_ne!(pow(m, (ORDER - 1) / q).to_canonical_u64(), 1);
    }
}

#[test]
fn sum_and_product_fold_from_zero_and_one() {
    let xs = vec![GoldilocksField(ORDER - 1), GoldilocksField(5), GoldilocksField(u64::MAX)];
    let want_sum = ((P - 1) + 5 + (u64::MAX as u128 % P)) % P;
    let want_product = (((P - 1) * 5) % P * (u64::MAX as u128 % P)) % P;
    assert_eq!(GoldilocksField::sum(&xs).to_canonical_u64() as u128, want_sum);
    assert_eq!(GoldilocksField::product(&xs).to_canonical_u64() as u128, want_product);
    assert_eq!(GoldilocksField::sum(&[]).to_canonical_u64(), 0);
    assert_eq!(GoldilocksField::product(&[]).to_canonical_u64(), 1);
}

#[test]
fn order_as_a_big_integer() {
    let order = GoldilocksField::order();
    assert_eq!(order.to_u64_digits(), vec![ORDER]);
    assert_eq!(order.to_string(), "18446744069414584321");
}

#[test]
fn random_elements_are_canonical() {
    let mut rng = StdRng::seed_from_u64(0x5EED);
    let mut seen_different = false;
    let first = GoldilocksField::rand_from_rng(&mut rng);
    for _ in 0..1000 {
        let x = GoldilocksField::rand_from_rng(&mut rng);
        assert!(x.0 < ORDER);
        if x.0 != first.0 {
            seen_different = true;
        }
    }
    assert!(seen_different);
}
