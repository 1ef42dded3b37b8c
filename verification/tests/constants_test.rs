use miller_rabin::is_prime;
use num::{FromPrimitive, PrimInt};
use num_bigint::BigUint;
use schnorr_fhe::constants::{
    POSEIDON_ALPHA, POSEIDON_P, POSEIDON_P_128, POSEIDON_P_32, POSEIDON_P_8, POSEIDON_R_FULL,
    POSEIDON_R_PARTIAL, POSEIDON_T, P_BITWIDTH, SCH_G, SCH_G_128, SCH_G_16, SCH_G_32, SCH_G_8,
    SCH_P, SCH_P_128, SCH_P_16, SCH_P_32, SCH_P_8, SCH_Q, SCH_Q_16, SCH_Q_4, SCH_Q_64, SCH_Q_8,
};
use schnorr_fhe::schnorr::GroupParams;
use schnorr_fhe::schnorr_p32::group_params_p32;
use schnorr_fhe::schnorr_p8::group_params_p8;

// Check prime up to u128
fn check_prime<T>(num: T) -> bool
where
    T: PrimInt + FromPrimitive,
{
    let n_u128: u128 = T::to_u128(&num).unwrap();
    is_prime(&BigUint::from(n_u128), 10)
}

#[test]
fn test_constants() {
    // Prime check
    assert!(check_prime(SCH_Q_16), "SCH_Q_16 is not a prime");
    assert!(check_prime(SCH_Q_64), "SCH_Q_64 is not a prime");
    assert!(check_prime(SCH_P_32), "SCH_P_32 is not a prime");
    assert!(check_prime(SCH_P_128), "SCH_P_128 is not a prime");

    // Check if g^q mod p == 1
    let one = BigUint::from(1_u32);
    let result =
        BigUint::from(SCH_G_128).modpow(&BigUint::from(SCH_Q_64), &BigUint::from(SCH_P_128));
    assert_eq!(result, one, "g^q mod p is not equal to 1 (128-bit p)");
    let result =
        BigUint::from(SCH_G_32).modpow(&BigUint::from(SCH_Q_16), &BigUint::from(SCH_P_32));
    assert_eq!(result, one, "g^q mod p is not equal to 1 (32-bit p)");

    // Check if p - 1 is a multiple of q
    let result = (BigUint::from(SCH_P_128) - &one) % BigUint::from(SCH_Q_64);
    assert_eq!(
        result,
        BigUint::from(0_u32),
        "SCH_P_128 - 1 is not a multiple of SCH_Q_64"
    );
    let result = (BigUint::from(SCH_P_32) - &one) % BigUint::from(SCH_Q_16);
    assert_eq!(
        result,
        BigUint::from(0_u32),
        "SCH_P_32 - 1 is not a multiple of SCH_Q_16"
    );
}

#[test]
fn small_groups_are_groups_too() {
    assert!(check_prime(SCH_P_16) && check_prime(SCH_Q_8));
    assert!(check_prime(SCH_P_8) && check_prime(SCH_Q_4));
    assert_eq!((SCH_P_16 - 1) % SCH_Q_8, 0);
    assert_eq!((SCH_P_8 - 1) % SCH_Q_4, 0);
}

#[test]
fn cycle_check_accepts_the_groups_and_no_other_cycle() {
    let p8 = GroupParams { p: SCH_P_8 as u64, g: SCH_G_8 as u64, q: SCH_Q_4 as u64 };
    let p16 = GroupParams { p: SCH_P_16 as u64, g: SCH_G_16 as u64, q: SCH_Q_8 as u64 };
    let p32 = GroupParams { p: SCH_P_32 as u64, g: SCH_G_32 as u64, q: SCH_Q_16 as u64 };
    assert!(p8.check_cycle());
    assert!(p16.check_cycle());
    assert!(p32.check_cycle());
    assert_eq!(group_params_p8(), p8);
    assert_eq!(group_params_p32(), p32);
    // a generator of another order
    assert!(!GroupParams { p: 199, g: 2, q: 11 }.check_cycle());
    // a generator outside the residues
    assert!(!GroupParams { p: 199, g: 0, q: 11 }.check_cycle());
    assert!(!GroupParams { p: 199, g: 199 + 61, q: 11 }.check_cycle());
    // an order that does not divide p - 1
    assert!(!GroupParams { p: 199, g: 1, q: 7 }.check_cycle());
    assert!(GroupParams { p: 199, g: 1, q: 11 }.check_cycle());
    // no group at all
    assert!(!GroupParams { p: 1, g: 0, q: 11 }.check_cycle());
    assert!(!GroupParams { p: 199, g: 1, q: 1 }.check_cycle());
    assert!(!GroupParams { p: 0, g: 0, q: 0 }.check_cycle());
}

#[test]
fn pipeline_constants_are_the_8_bit_ones() {
    assert_eq!(P_BITWIDTH, 8);
    assert_eq!((SCH_P, SCH_G, SCH_Q), (199, 61, 11));
    assert_eq!(POSEIDON_P, 199);
    assert_eq!(POSEIDON_P_8, SCH_P_8);
    assert_eq!(POSEIDON_P_32, SCH_P_32);
    assert_eq!(POSEIDON_P_128, SCH_P_128);
    assert_eq!((POSEIDON_ALPHA, POSEIDON_T, POSEIDON_R_FULL, POSEIDON_R_PARTIAL), (5, 4, 8, 56));
}
