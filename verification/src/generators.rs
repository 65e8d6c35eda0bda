//! What holds of the fixed constants of the field: its two-adicity and
//! the generator of its two-adic subgroup.

use crate::goldilocks_field::{
    MULTIPLICATIVE_GROUP_GENERATOR, ORDER, POWER_OF_TWO_GENERATOR, TWO_ADICITY,
};
use crate::primality::{lemma_generator_order, lemma_no_small_order, lemma_pow_mod_square};
use vstd::arithmetic::div_mod::lemma_mul_mod_noop;
use vstd::arithmetic::power::{lemma_pow1, lemma_pow_adds, pow};
use vstd::arithmetic::power2::{lemma2_to64, pow2};
use vstd::prelude::*;

verus! {

/// `ORDER - 1` is `2^TWO_ADICITY` times an odd number.
pub proof fn lemma_two_adicity()
    ensures
        (ORDER - 1) % (pow2(TWO_ADICITY as nat) as int) == 0,
        ((ORDER - 1) / (pow2(TWO_ADICITY as nat) as int)) % 2 == 1,
        (ORDER - 1) / (pow2(TWO_ADICITY as nat) as int) == 0xFFFF_FFFF,
{
    lemma2_to64();
}

/// The power of a sum of exponents is the product of the powers, also
/// modulo `m`.
proof fn lemma_pow_mod_product(x: int, e1: nat, e2: nat, m: int, y1: int, y2: int, y: int)
    requires
        m > 0,
        pow(x, e1) % m == y1,
        pow(x, e2) % m == y2,
        (y1 * y2) % m == y,
    ensures
        pow(x, e1 + e2) % m == y,
{
    lemma_pow_adds(x, e1, e2);
    lemma_mul_mod_noop(pow(x, e1), pow(x, e2), m);
}

/// The generator of the two-adic subgroup is the generator of the
/// multiplicative group to the power `(ORDER - 1) / 2^32`.
pub proof fn lemma_power_of_two_generator_is_a_power()
    ensures
        pow(MULTIPLICATIVE_GROUP_GENERATOR as int, 0xFFFF_FFFF) % (ORDER as int)
            == POWER_OF_TWO_GENERATOR,
{
    let m = MULTIPLICATIVE_GROUP_GENERATOR as int;
    let p = ORDER as int;
    lemma_pow1(m);
    lemma_pow_mod_square(m, 0x1, p, 0x7, 0x31);
    lemma_pow_mod_product(m, 0x1, 0x2, p, 0x7, 0x31, 0x157);
    lemma_pow_mod_square(m, 0x2, p, 0x31, 0x961);
    lemma_pow_mod_product(m, 0x3, 0x4, p, 0x157, 0x961, 0xc90f7);
    lemma_pow_mod_square(m, 0x4, p, 0x961, 0x57f6c1);
    lemma_pow_mod_product(m, 0x7, 0x8, p, 0xc90f7, 0x57f6c1, 0x45160b7a437);
    lemma_pow_mod_square(m, 0x8, p, 0x57f6c1, 0x1e39a5057d81);
    lemma_pow_mod_product(m, 0xf, 0x10, p, 0x45160b7a437, 0x1e39a5057d81, 0x99afae240f49187b);
    lemma_pow_mod_square(m, 0x10, p, 0x1e39a5057d81, 0x33cdc3006affab59);
    lemma_pow_mod_product(m, 0x1f, 0x20, p, 0x99afae240f49187b, 0x33cdc3006affab59, 0xa8974fb5a161a54e);
    lemma_pow_mod_square(m, 0x20, p, 0x33cdc3006affab59, 0x9c232dfb69ab851e);
    lemma_pow_mod_product(m, 0x3f, 0x40, p, 0xa8974fb5a161a54e, 0x9c232dfb69ab851e, 0x61400096e777dba3);
    lemma_pow_mod_square(m, 0x40, p, 0x9c232dfb69ab851e, 0xa8c0042254470173);
    lemma_pow_mod_product(m, 0x7f, 0x80, p, 0x61400096e777dba3, 0xa8c0042254470173, 0x70c2c3d51532b015);
    lemma_pow_mod_square(m, 0x80, p, 0xa8c0042254470173, 0x15535ad69462d090);
    lemma_pow_mod_product(m, 0xff, 0x100, p, 0x70c2c3d51532b015, 0x15535ad69462d090, 0x246c0ceea861a57f);
    lemma_pow_mod_square(m, 0x100, p, 0x15535ad69462d090, 0xfef45a869aab8679);
    lemma_pow_mod_product(m, 0x1ff, 0x200, p, 0x246c0ceea861a57f, 0xfef45a869aab8679, 0x7288f8ac3eb147db);
    lemma_pow_mod_square(m, 0x200, p, 0xfef45a869aab8679, 0x21beccb8b6d8f6fa);
    lemma_pow_mod_product(m, 0x3ff, 0x400, p, 0x7288f8ac3eb147db, 0x21beccb8b6d8f6fa, 0x312d46fa4985c61b);
    lemma_pow_mod_square(m, 0x400, p, 0x21beccb8b6d8f6fa, 0x583cf0d902a86abc);
    lemma_pow_mod_product(m, 0x7ff, 0x800, p, 0x312d46fa4985c61b, 0x583cf0d902a86abc, 0xa64705c6baaba93f);
    lemma_pow_mod_square(m, 0x800, p, 0x583cf0d902a86abc, 0x8bf128731ab1a0b5);
    lemma_pow_mod_product(m, 0xfff, 0x1000, p, 0xa64705c6baaba93f, 0x8bf128731ab1a0b5, 0x8ba3d55d2139aa43);
    lemma_pow_mod_square(m, 0x1000, p, 0x8bf128731ab1a0b5, 0xd17ad58ee893a7d2);
    lemma_pow_mod_product(m, 0x1fff, 0x2000, p, 0x8ba3d55d2139aa43, 0xd17ad58ee893a7d2, 0x91851167eeceda71);
    lemma_pow_mod_square(m, 0x2000, p, 0xd17ad58ee893a7d2, 0xfaa379da87a7f914);
    lemma_pow_mod_product(m, 0x3fff, 0x4000, p, 0x91851167eeceda71, 0xfaa379da87a7f914, 0x397267bbb0d470dc);
    lemma_pow_mod_square(m, 0x4000, p, 0xfaa379da87a7f914, 0x9220d622d5cf1603);
    lemma_pow_mod_product(m, 0x7fff, 0x8000, p, 0x397267bbb0d470dc, 0x9220d622d5cf1603, 0xa86793b70b1704a5);
    lemma_pow_mod_square(m, 0x8000, p, 0x9220d622d5cf1603, 0x9ad50a054da1207f);
    lemma_pow_mod_product(m, 0xffff, 0x10000, p, 0xa86793b70b1704a5, 0x9ad50a054da1207f, 0x3c0bda2ffb163853);
    lemma_pow_mod_square(m, 0x10000, p, 0x9ad50a054da1207f, 0xa452f750dd9b8a44);
    lemma_pow_mod_product(m, 0x1ffff, 0x20000, p, 0x3c0bda2ffb163853, 0xa452f750dd9b8a44, 0x2de90873f8dcc0c);
    lemma_pow_mod_square(m, 0x20000, p, 0xa452f750dd9b8a44, 0x1415f3b2bce09454);
    lemma_pow_mod_product(m, 0x3ffff, 0x40000, p, 0x2de90873f8dcc0c, 0x1415f3b2bce09454, 0x8bfabfdd7ea6212d);
    lemma_pow_mod_square(m, 0x40000, p, 0x1415f3b2bce09454, 0xd3db3f11768ae838);
    lemma_pow_mod_product(m, 0x7ffff, 0x80000, p, 0x8bfabfdd7ea6212d, 0xd3db3f11768ae838, 0x19c0e0fb7b446dca);
    lemma_pow_mod_square(m, 0x80000, p, 0xd3db3f11768ae838, 0xb44626e05edf0086);
    lemma_pow_mod_product(m, 0xfffff, 0x100000, p, 0x19c0e0fb7b446dca, 0xb44626e05edf0086, 0x69d6953bb77f86f7);
    lemma_pow_mod_square(m, 0x100000, p, 0xb44626e05edf0086, 0xe4de14a4047cb0bf);
    lemma_pow_mod_product(m, 0x1fffff, 0x200000, p, 0x69d6953bb77f86f7, 0xe4de14a4047cb0bf, 0x6c1ee88c45c2b408);
    lemma_pow_mod_square(m, 0x200000, p, 0xe4de14a4047cb0bf, 0xf4d85bd7e852ec36);
    lemma_pow_mod_product(m, 0x3fffff, 0x400000, p, 0x6c1ee88c45c2b408, 0xf4d85bd7e852ec36, 0x51e7d705a299e049);
    lemma_pow_mod_square(m, 0x400000, p, 0xf4d85bd7e852ec36, 0x3d56e129723521fd);
    lemma_pow_mod_product(m, 0x7fffff, 0x800000, p, 0x51e7d705a299e049, 0x3d56e129723521fd, 0x7c006a86cb2e1b6a);
    lemma_pow_mod_square(m, 0x800000, p, 0x3d56e129723521fd, 0x6402e9b28e42bfe3);
    lemma_pow_mod_product(m, 0xffffff, 0x1000000, p, 0x7c006a86cb2e1b6a, 0x6402e9b28e42bfe3, 0xb5b66fc4e2a5e852);
    lemma_pow_mod_square(m, 0x1000000, p, 0x6402e9b28e42bfe3, 0xf7fd0e6632895a3a);
    lemma_pow_mod_product(m, 0x1ffffff, 0x2000000, p, 0xb5b66fc4e2a5e852, 0xf7fd0e6632895a3a, 0x9c09c794643052c2);
    lemma_pow_mod_square(m, 0x2000000, p, 0xf7fd0e6632895a3a, 0x44447512bd52434a);
    lemma_pow_mod_product(m, 0x3ffffff, 0x4000000, p, 0x9c09c794643052c2, 0x44447512bd52434a, 0x1ca370dddbd4b593);
    lemma_pow_mod_square(m, 0x4000000, p, 0x44447512bd52434a, 0xc878161102d0f705);
    lemma_pow_mod_product(m, 0x7ffffff, 0x8000000, p, 0x1ca370dddbd4b593, 0xc878161102d0f705, 0xb54faaefeebfd11e);
    lemma_pow_mod_square(m, 0x8000000, p, 0xc878161102d0f705, 0xf52dac93873eb7ce);
    lemma_pow_mod_product(m, 0xfffffff, 0x10000000, p, 0xb54faaefeebfd11e, 0xf52dac93873eb7ce, 0xe6479c575768caac);
    lemma_pow_mod_square(m, 0x10000000, p, 0xf52dac93873eb7ce, 0x4bf5466963dd8aae);
    lemma_pow_mod_product(m, 0x1fffffff, 0x20000000, p, 0xe6479c575768caac, 0x4bf5466963dd8aae, 0x514fd349847c85d1);
    lemma_pow_mod_square(m, 0x20000000, p, 0x4bf5466963dd8aae, 0x392ec7049f67a8b5);
    lemma_pow_mod_product(m, 0x3fffffff, 0x40000000, p, 0x514fd349847c85d1, 0x392ec7049f67a8b5, 0xd95051a31cf4a6ef);
    lemma_pow_mod_square(m, 0x40000000, p, 0x392ec7049f67a8b5, 0xf1323b7acab09084);
    lemma_pow_mod_product(m, 0x7fffffff, 0x80000000, p, 0xd95051a31cf4a6ef, 0xf1323b7acab09084, 0x185629dcda58878c);
}

/// The generator of the two-adic subgroup has order `2^32`: that power of
/// it is one, and no smaller one is.
pub proof fn lemma_power_of_two_generator_order()
    ensures
        pow(POWER_OF_TWO_GENERATOR as int, 0x1_0000_0000) % (ORDER as int) == 1,
        forall|k: nat|
            0 < k < 0x1_0000_0000 ==> #[trigger] pow(POWER_OF_TWO_GENERATOR as int, k) % (
            ORDER as int) != 1,
{
    let p = ORDER as int;
    lemma_generator_order();
    lemma2_to64();
    assert forall|k: nat| 0 < k < 0x1_0000_0000 implies #[trigger] pow(
        POWER_OF_TWO_GENERATOR as int,
        k,
    ) % p != 1 by {
        assert(pow2(0) * k == k);
        lemma_no_small_order(p, 0, k);
    }
}

} // verus!
