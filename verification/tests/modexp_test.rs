use num_bigint::BigUint;
use num_traits::ToPrimitive;
use schnorr_fhe::bigint::{modpow, random_scalar};

fn reference(base: u128, exp: u128, modulus: u128) -> u128 {
    // repeated multiplication in big integers, with no square-and-multiply
    let mut power = BigUint::from(1u8);
    let mut i = 0u128;
    while i < exp {
        power = power * BigUint::from(base);
        i += 1;
    }
    (power % BigUint::from(modulus)).to_u128().unwrap()
}

#[test]
fn modpow_exact_values() {
    assert_eq!(modpow(3, 10, 101), 65);
    assert_eq!(modpow(3, 10, 1 << 16), 59049);
    assert_eq!(modpow(61, 11, 199), 1);
    assert_eq!(modpow(2, 0, 7), 1);
    assert_eq!(modpow(0, 0, 7), 1);
    assert_eq!(modpow(0, 5, 7), 0);
    assert_eq!(modpow(5, 3, 1), 0);
    assert_eq!(modpow(7, 1, 5), 2);
}

#[test]
fn modpow_agrees_with_repeated_multiplication() {
    for base in [0u128, 1, 2, 3, 60, 198, 199, 65535] {
        for exp in [1u128, 2, 3, 5, 10, 16, 17] {
            for modulus in [1u128, 2, 11, 199, 256, 52813] {
                assert_eq!(modpow(base, exp, modulus), reference(base, exp, modulus));
            }
        }
    }
}

#[test]
fn modpow_takes_the_widest_numbers() {
    let p: u128 = 248887481077937771352227813962501876493;
    let g: u128 = 119623129323905044429391025715657774932;
    let q: u128 = 12223110294319142443;
    assert_eq!(modpow(g, q, p), 1);
    assert_eq!(modpow(u128::MAX, 1, u128::MAX), 0);
    assert_eq!(modpow(u128::MAX, 2, u128::MAX - 1), 1);
}

#[test]
fn random_scalar_stays_in_its_range() {
    assert_eq!(random_scalar(0), None);
    assert_eq!(random_scalar(1), None);
    assert_eq!(random_scalar(2), Some(1));
    for _ in 0..200 {
        let x = random_scalar(11).unwrap();
        assert!(1 <= x && x < 11);
    }
}
