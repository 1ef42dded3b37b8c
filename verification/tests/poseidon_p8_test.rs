use schnorr_fhe::constants;
use schnorr_fhe::poseidon_clear::{
    apply_mds_matrix_clear, poseidon_hash, poseidon_permute, PoseidonProfile,
};
use schnorr_fhe::poseidon_p8::{
    clear_profile_p8, has_rounds_p8, pick_round_constants_p8, poseidon_p8_clear, poseidon_p8_clear_impl,
    poseidon_p8_clear_rf2_rp1, T4_P8_MDS_MATRIX, T4_P8_RC, T4_P8_RC_R1_TEST,
};

// Test Poseidon end-to-end, in the clear
#[test]
fn test_poseidon_p8_clear_full() {
    // Inputs
    let inputs: [u8; constants::POSEIDON_T] = [1u8, 0u8, 2u8, 8u8];
    let output = poseidon_p8_clear(inputs);
    let expected: u8 = 42;
    assert_eq!(output, expected);
}

#[test]
fn test_poseidon_p8_clear_rf2_rp1() {
    // Inputs
    let inputs: [u8; constants::POSEIDON_T] = [1u8, 0u8, 2u8, 8u8];
    let output = poseidon_p8_clear_rf2_rp1(inputs);
    let expected: u8 = 13;
    assert_eq!(output, expected);
}

// The matrix of the 8-bit profile times [1, 0, 2, 8]
#[test]
fn apply_mds_matrix_clear_p8_vector() {
    let profile = clear_profile_p8(8, 56);
    let inputs: Vec<u64> = vec![1, 0, 2, 8];
    let output = apply_mds_matrix_clear(&inputs, &profile.mds_matrix, 199);
    let expected: Vec<u64> = vec![42, 155, 40, 173];
    assert_eq!(output, expected);
}

#[test]
fn apply_mds_matrix_clear_reduces_large_entries() {
    // entries far above the modulus: the products are formed in 128 bits
    let matrix: Vec<Vec<u64>> = vec![
        vec![u64::MAX, 1, 0, 0],
        vec![0, u64::MAX, 0, 0],
        vec![0, 0, 1, 0],
        vec![0, 0, 0, 1],
    ];
    let inputs: Vec<u64> = vec![u64::MAX, 3, 5, 7];
    let output = apply_mds_matrix_clear(&inputs, &matrix, 199);
    // u64::MAX = 18446744073709551615 = 125 (mod 199)
    let expected: Vec<u64> = vec![(125 * 125 + 3) % 199, (3 * 125) % 199, 5, 7];
    assert_eq!(expected, vec![106, 176, 5, 7]);
    assert_eq!(output, expected);
}

#[test]
fn apply_mds_matrix_clear_of_nothing_is_nothing() {
    let profile = clear_profile_p8(2, 1);
    let inputs: Vec<u64> = Vec::new();
    let output = apply_mds_matrix_clear(&inputs, &profile.mds_matrix, 199);
    assert!(output.is_empty());
}

// The matrix product is linear modulo the prime
#[test]
fn apply_mds_matrix_clear_is_linear() {
    let profile = clear_profile_p8(8, 56);
    let a: Vec<u64> = vec![1, 0, 2, 8];
    let b: Vec<u64> = vec![198, 57, 100, 3];
    let sum: Vec<u64> = a.iter().zip(b.iter()).map(|(x, y)| (x + y) % 199).collect();
    let of_a = apply_mds_matrix_clear(&a, &profile.mds_matrix, 199);
    let of_b = apply_mds_matrix_clear(&b, &profile.mds_matrix, 199);
    let of_sum = apply_mds_matrix_clear(&sum, &profile.mds_matrix, 199);
    let sum_of: Vec<u64> = of_a.iter().zip(of_b.iter()).map(|(x, y)| (x + y) % 199).collect();
    assert_eq!(of_sum, sum_of);
    assert_eq!(of_a, vec![42, 155, 40, 173]);
}

#[test]
fn permutation_p8_whole_state() {
    let inputs: Vec<u64> = vec![1, 0, 2, 8];
    let short = poseidon_permute(&clear_profile_p8(2, 1), &inputs);
    assert_eq!(short, vec![92, 13, 185, 15]);
    let full = poseidon_permute(&clear_profile_p8(8, 56), &inputs);
    assert_eq!(full, vec![135, 42, 189, 150]);
    // the hash is element 1, not element 0
    assert_eq!(poseidon_hash(&clear_profile_p8(8, 56), &inputs), 42);
}

#[test]
fn poseidon_p8_clear_reduces_its_inputs() {
    // 200 = 1 and 199 = 0 modulo the prime
    assert_eq!(poseidon_p8_clear([200, 199, 201, 207]), 42);
    assert_eq!(poseidon_p8_clear_rf2_rp1([200, 199, 201, 207]), 13);
    assert_eq!(poseidon_p8_clear([255, 254, 253, 252]), 65);
    assert_eq!(poseidon_p8_clear_rf2_rp1([255, 254, 253, 252]), 27);
    assert_eq!(poseidon_p8_clear([0, 0, 0, 0]), 70);
    assert_eq!(poseidon_p8_clear_rf2_rp1([0, 0, 0, 0]), 80);
}

#[test]
fn poseidon_p8_clear_impl_goes_by_round_counts() {
    assert_eq!(poseidon_p8_clear_impl([1, 0, 2, 8], 2, 1), 13);
    assert_eq!(
        poseidon_p8_clear_impl(
            [1, 0, 2, 8],
            constants::POSEIDON_R_FULL,
            constants::POSEIDON_R_PARTIAL
        ),
        42
    );
    // any split of the 64 rounds with an even number of full rounds runs
    let other = poseidon_p8_clear_impl([1, 0, 2, 8], 4, 60);
    assert!(other < 199);
}

#[test]
fn round_constants_p8_are_picked_by_round_counts() {
    assert_eq!(pick_round_constants_p8(2, 1), T4_P8_RC_R1_TEST.to_vec());
    assert_eq!(pick_round_constants_p8(8, 56), T4_P8_RC.to_vec());
    assert_eq!(pick_round_constants_p8(4, 60), T4_P8_RC.to_vec());
    assert_eq!(pick_round_constants_p8(8, 56).len(), 64 * constants::POSEIDON_T);
    assert_eq!(T4_P8_MDS_MATRIX[3], [57, 25, 177, 20]);
}

#[test]
fn rounds_p8_that_have_a_table() {
    assert!(has_rounds_p8(2, 1));
    assert!(has_rounds_p8(8, 56));
    assert!(has_rounds_p8(0, 64));
    assert!(has_rounds_p8(64, 0));
    assert!(has_rounds_p8(4, 60));
    // an odd number of full rounds
    assert!(!has_rounds_p8(7, 57));
    assert!(!has_rounds_p8(1, 2));
    // more or fewer rounds than the table has constants for
    assert!(!has_rounds_p8(8, 55));
    assert!(!has_rounds_p8(8, 57));
    assert!(!has_rounds_p8(2, 2));
    assert!(!has_rounds_p8(0, 0));
    assert!(!has_rounds_p8(66, 0));
    assert!(!has_rounds_p8(usize::MAX - 1, 66));
    assert!(!has_rounds_p8(usize::MAX, usize::MAX));
}

fn toy_profile() -> PoseidonProfile {
    PoseidonProfile {
        prime: 7,
        alpha: 3,
        r_full: 2,
        r_partial: 0,
        round_constants: vec![1, 2, 3, 4, 5, 6, 0, 1],
        mds_matrix: vec![vec![1, 2, 3, 4], vec![2, 3, 4, 5], vec![3, 4, 5, 6], vec![4, 5, 6, 0]],
    }
}

#[test]
fn profile_check_accepts_usable_profiles() {
    assert!(clear_profile_p8(2, 1).check());
    assert!(clear_profile_p8(8, 56).check());
    assert!(toy_profile().check());
}

#[test]
fn profile_check_names_every_fault() {
    let mut p = toy_profile();
    p.prime = 0;
    assert!(!p.check());
    let mut p = toy_profile();
    p.alpha = 0;
    assert!(!p.check());
    // an odd number of full rounds
    let mut p = toy_profile();
    p.r_full = 1;
    p.r_partial = 1;
    assert!(!p.check());
    // a constant too few, a constant too many
    let mut p = toy_profile();
    p.round_constants.pop();
    assert!(!p.check());
    let mut p = toy_profile();
    p.round_constants.push(0);
    assert!(!p.check());
    // round counts that do not fit the machine
    let mut p = toy_profile();
    p.r_full = usize::MAX - 1;
    p.r_partial = 2;
    assert!(!p.check());
    // a constant that is not reduced
    let mut p = toy_profile();
    p.round_constants[7] = 7;
    assert!(!p.check());
    // a matrix of another shape, an entry that is not reduced
    let mut p = toy_profile();
    p.mds_matrix.pop();
    assert!(!p.check());
    let mut p = toy_profile();
    p.mds_matrix[2].push(0);
    assert!(!p.check());
    let mut p = toy_profile();
    p.mds_matrix[3][3] = 9;
    assert!(!p.check());
}

#[test]
fn permutation_with_a_toy_profile() {
    // two full rounds modulo 7 with the cube as S-box, worked by hand:
    // [1, 0, 2, 8] reduces to [1, 0, 2, 1]
    // round 0: + [1, 2, 3, 4] = [2, 2, 5, 5]; cubes [1, 1, 6, 6]; matrix [3, 3, 3, 3]
    // round 1: + [5, 6, 0, 1] = [1, 2, 3, 4]; cubes [1, 1, 6, 1]; matrix [4, 6, 1, 3]
    let state = poseidon_permute(&toy_profile(), &vec![1, 0, 2, 8]);
    assert_eq!(state, vec![4, 6, 1, 3]);
    assert_eq!(poseidon_hash(&toy_profile(), &vec![1, 0, 2, 8]), 6);
}
