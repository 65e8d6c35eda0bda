use goldilocks_stark::extension::Extension;
use goldilocks_stark::fri::{FriChallenges, FriConfig};
use goldilocks_stark::goldilocks_field::{GoldilocksField, ORDER};

fn challenges(response: u64) -> FriChallenges<2> {
    FriChallenges {
        fri_alpha: Extension([GoldilocksField(0), GoldilocksField(0)]),
        fri_betas: vec![],
        fri_pow_response: GoldilocksField(response),
        fri_query_indices: vec![],
    }
}

fn config(bits: u32) -> FriConfig {
    FriConfig { rate_bits: 1, cap_height: 0, proof_of_work_bits: bits, num_query_rounds: 1 }
}

#[test]
fn a_response_with_enough_leading_zeros_passes() {
    assert!(challenges(0x0000_FFFF_FFFF_FFFF).proof_of_work_passes(&config(16)));
    assert!(challenges(0x0000_FFFF_FFFF_FFFF).proof_of_work_passes(&config(1)));
    assert!(challenges(1).proof_of_work_passes(&config(63)));
    assert!(challenges(0).proof_of_work_passes(&config(64)));
}

#[test]
fn a_response_with_too_few_leading_zeros_fails() {
    assert!(!challenges(0x0001_0000_0000_0000).proof_of_work_passes(&config(16)));
    assert!(!challenges(0x0000_FFFF_FFFF_FFFF).proof_of_work_passes(&config(17)));
    assert!(!challenges(1).proof_of_work_passes(&config(64)));
    assert!(!challenges(0).proof_of_work_passes(&config(65)));
}

#[test]
fn no_bits_asked_for_always_passes() {
    assert!(challenges(ORDER - 1).proof_of_work_passes(&config(0)));
    assert!(challenges(0).proof_of_work_passes(&config(0)));
}

#[test]
fn the_canonical_value_of_the_response_counts() {
    // ORDER + 1 stands for 1, which has 63 leading zeros.
    assert!(challenges(ORDER + 1).proof_of_work_passes(&config(63)));
    assert!(challenges(ORDER).proof_of_work_passes(&config(64)));
}
