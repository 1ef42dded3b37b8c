use schnorr_fhe::constants;
use schnorr_fhe::poseidon::{
    clear_profile_p32, has_rounds_p32, pick_round_constants_p32, poseidon_p32_clear, poseidon_p32_clear_impl,
    T4_P32_RC, T4_P32_RC_R1_TEST,
};
use schnorr_fhe::poseidon_clear::{apply_mds_matrix_clear, poseidon_permute};

// The matrix of the 32-bit profile times [1, 0, 2, 8]
#[test]
fn apply_mds_matrix_clear_p32_vector() {
    let profile = clear_profile_p32(8, 56);
    let inputs: Vec<u64> = vec![1, 0, 2, 8];
    let output = apply_mds_matrix_clear(&inputs, &profile.mds_matrix, constants::POSEIDON_P_32 as u64);
    let expected: Vec<u64> = vec![3002771793, 913519307, 2467066027, 2864616095];
    assert_eq!(output, expected);
}

// Poseidon end-to-end with r_full = 2, r_partial = 1
#[test]
fn poseidon_p32_clear_r1_vector() {
    let output = poseidon_p32_clear_impl([1u32, 0u32, 2u32, 8u32], 2, 1);
    let expected: u32 = 1725970220;
    assert_eq!(output, expected);
}

// Poseidon end-to-end with all rounds
#[test]
fn poseidon_p32_clear_full_vector() {
    let output = poseidon_p32_clear([1u32, 0u32, 2u32, 8u32]);
    let expected: u32 = 1502657535;
    assert_eq!(output, expected);
    assert_eq!(
        poseidon_p32_clear_impl(
            [1, 0, 2, 8],
            constants::POSEIDON_R_FULL,
            constants::POSEIDON_R_PARTIAL
        ),
        expected
    );
}

#[test]
fn poseidon_p32_clear_reduces_its_inputs() {
    // 3552575077 is the prime, so it counts as 0
    assert_eq!(poseidon_p32_clear([4294967295, 0, 1, 3552575077]), 818263197);
    assert_eq!(
        poseidon_p32_clear([4294967295, 0, 1, 0]),
        poseidon_p32_clear([4294967295 - 3552575077, 0, 1, 3552575077])
    );
}

#[test]
fn permutation_p32_whole_state() {
    let inputs: Vec<u64> = vec![1, 0, 2, 8];
    let full = poseidon_permute(&clear_profile_p32(8, 56), &inputs);
    assert_eq!(full, vec![2502490956, 1502657535, 1671922158, 1686343391]);
}

#[test]
fn round_constants_p32_are_picked_by_round_counts() {
    assert_eq!(pick_round_constants_p32(2, 1), T4_P32_RC_R1_TEST.to_vec());
    assert_eq!(pick_round_constants_p32(8, 56), T4_P32_RC.to_vec());
    assert_eq!(pick_round_constants_p32(8, 56).len(), 256);
}

#[test]
fn rounds_p32_that_have_a_table() {
    assert!(has_rounds_p32(2, 1));
    assert!(has_rounds_p32(8, 56));
    assert!(has_rounds_p32(10, 54));
    assert!(!has_rounds_p32(9, 55));
    assert!(!has_rounds_p32(8, 0));
    assert!(!has_rounds_p32(2, 0));
}
