use rand::rngs::StdRng;
use rand::{Rng, SeedableRng};
use schnorr_fhe::bigint::modpow;
use schnorr_fhe::poseidon::clear_profile_p32;
use schnorr_fhe::poseidon_p8::clear_profile_p8;
use schnorr_fhe::schnorr::{
    schnorr_keygen, schnorr_public_key, schnorr_sign_clear, schnorr_verify, GroupParams, KeyPair,
    Signature,
};
use schnorr_fhe::schnorr_p32::{group_params_p32, verify_p32};
use schnorr_fhe::schnorr_p8::{group_params_p8, verify_p8};

#[test]
fn public_key_is_the_power_of_the_generator() {
    let group = group_params_p8();
    assert_eq!(schnorr_public_key(&group, 0), 1);
    assert_eq!(schnorr_public_key(&group, 1), 61);
    assert_eq!(schnorr_public_key(&group, 7), 188);
    assert_eq!(schnorr_public_key(&group, 10), 62);
    assert_eq!(schnorr_public_key(&group, 11), 1);
    let pair = KeyPair { x: 3, y: schnorr_public_key(&group, 3) };
    assert_eq!(pair, KeyPair { x: 3, y: 121 });
    assert_eq!(schnorr_public_key(&group_params_p32(), 12345), 1569331838);
}

#[test]
fn sign_clear_p8_exact_values() {
    let group = group_params_p8();
    let short = clear_profile_p8(2, 1);
    let full = clear_profile_p8(8, 56);
    assert_eq!(schnorr_sign_clear(&group, &short, 1, 0xAA), Signature { s: 8, h: 8 });
    assert_eq!(schnorr_sign_clear(&group, &full, 1, 0xAA), Signature { s: 9, h: 1 });
    assert_eq!(schnorr_sign_clear(&group, &short, 7, 0xAA), Signature { s: 1, h: 1 });
    assert_eq!(schnorr_sign_clear(&group, &full, 7, 0xAA), Signature { s: 3, h: 3 });
    assert_eq!(schnorr_sign_clear(&group, &short, 10, 0), Signature { s: 6, h: 1 });
    assert_eq!(schnorr_sign_clear(&group, &full, 3, 255), Signature { s: 1, h: 3 });
}

#[test]
fn sign_clear_p32_exact_values() {
    let group = group_params_p32();
    let short = clear_profile_p32(2, 1);
    let full = clear_profile_p32(8, 56);
    assert_eq!(
        schnorr_sign_clear(&group, &full, 1, 0xAAAAAAAA),
        Signature { s: 14096, h: 43230 }
    );
    assert_eq!(
        schnorr_sign_clear(&group, &short, 12345, 0xAAAAAAAA),
        Signature { s: 15148, h: 22675 }
    );
    assert_eq!(schnorr_sign_clear(&group, &full, 43606, 7), Signature { s: 15280, h: 32035 });
}

// Signing twice gives the same signature, and the signature is accepted
#[test]
fn sign_is_deterministic_and_verifies_p8() {
    let group = group_params_p8();
    for (r_full, r_partial) in [(2usize, 1usize), (8, 56)] {
        let profile = clear_profile_p8(r_full, r_partial);
        for x in 1u64..11 {
            let y = schnorr_public_key(&group, x);
            for msg in [0u64, 1, 0xAA, 198, 199, 255] {
                let first = schnorr_sign_clear(&group, &profile, x, msg);
                let second = schnorr_sign_clear(&group, &profile, x, msg);
                assert_eq!(first, second);
                assert!(first.s < 11 && first.h < 11);
                assert!(schnorr_verify(&group, &profile, y, msg, &first));
                assert!(verify_p8(
                    &group,
                    y as u8,
                    msg as u8,
                    first.s as u8,
                    first.h as u8,
                    r_full,
                    r_partial
                ));
            }
        }
    }
}

#[test]
fn sign_is_deterministic_and_verifies_p32() {
    let group = group_params_p32();
    let profile = clear_profile_p32(8, 56);
    let mut rng = StdRng::seed_from_u64(2024);
    for _ in 0..20 {
        let x: u64 = rng.gen_range(1..group.q);
        let msg: u64 = rng.gen_range(0..=u32::MAX as u64);
        let y = schnorr_public_key(&group, x);
        let first = schnorr_sign_clear(&group, &profile, x, msg);
        let second = schnorr_sign_clear(&group, &profile, x, msg);
        assert_eq!(first, second);
        assert!(schnorr_verify(&group, &profile, y, msg, &first));
        assert!(verify_p32(
            &group,
            y as u32,
            msg as u32,
            first.s as u32,
            first.h as u32,
            8,
            56
        ));
    }
}

// Flipping one bit of the message, of s or of h makes the verification fail
#[test]
fn tampered_signatures_are_rejected() {
    let group = group_params_p32();
    let profile = clear_profile_p32(8, 56);
    let mut rng = StdRng::seed_from_u64(7);
    for trial in 0..100 {
        let x: u64 = rng.gen_range(1..group.q);
        let msg: u64 = rng.gen_range(0..=u32::MAX as u64);
        let y = schnorr_public_key(&group, x);
        let sig = schnorr_sign_clear(&group, &profile, x, msg);
        assert!(schnorr_verify(&group, &profile, y, msg, &sig));
        let bit: u32 = rng.gen_range(0..32);
        let flip: u64 = 1u64 << bit;
        let accepted = match trial % 3 {
            0 => schnorr_verify(&group, &profile, y, msg ^ flip, &sig),
            1 => schnorr_verify(&group, &profile, y, msg, &Signature { s: sig.s ^ flip, h: sig.h }),
            _ => schnorr_verify(&group, &profile, y, msg, &Signature { s: sig.s, h: sig.h ^ flip }),
        };
        assert!(!accepted, "trial {} accepted a tampered signature", trial);
    }
}

#[test]
fn verify_rejects_without_failing() {
    let group = group_params_p8();
    let profile = clear_profile_p8(2, 1);
    let y = schnorr_public_key(&group, 1);
    // the signature of 0xAA under x = 1 is (8, 8)
    assert!(schnorr_verify(&group, &profile, y, 0xAA, &Signature { s: 8, h: 8 }));
    assert!(!schnorr_verify(&group, &profile, y, 0xAA, &Signature { s: 8, h: 6 }));
    assert!(!schnorr_verify(&group, &profile, y, 0xAA, &Signature { s: 7, h: 8 }));
    // with a challenge below 11 one forgery in eleven fits by chance: this one does
    assert!(schnorr_verify(&group, &profile, y, 0xAA, &Signature { s: 8, h: 7 }));
    // numbers that are no residues are an answer too
    assert!(!schnorr_verify(&group, &profile, y, 0xAA, &Signature { s: 8, h: 200 }));
    assert!(!schnorr_verify(&group, &profile, u64::MAX, u64::MAX, &Signature { s: u64::MAX, h: u64::MAX }));
    // another public key
    assert!(!schnorr_verify(&group, &profile, 62, 0xAA, &Signature { s: 8, h: 8 }));
    assert!(!verify_p8(&group, 61, 0xAA, 8, 6, 2, 1));
    assert!(verify_p8(&group, 61, 0xAA, 8, 8, 2, 1));
}

#[test]
fn sign_clear_in_the_smallest_group() {
    // q = 2: the nonce can only be 1
    let group = GroupParams { p: 3, g: 2, q: 2 };
    assert!(group.check_cycle());
    let profile = clear_profile_p8(2, 1);
    for msg in 0u64..8 {
        let sig = schnorr_sign_clear(&group, &profile, 1, msg);
        assert!(sig.s < 2 && sig.h < 2);
        assert!(schnorr_verify(&group, &profile, schnorr_public_key(&group, 1), msg, &sig));
    }
}

#[test]
fn keygen_draws_a_secret_of_the_group() {
    let group = group_params_p8();
    for _ in 0..100 {
        let pair = schnorr_keygen(&group).unwrap();
        assert!(1 <= pair.x && pair.x < 11);
        assert_eq!(pair.y, schnorr_public_key(&group, pair.x));
    }
    let pair = schnorr_keygen(&group_params_p32()).unwrap();
    assert!(1 <= pair.x && pair.x < 43607);
    assert_eq!(pair.y, schnorr_public_key(&group_params_p32(), pair.x));
    // the only secret of the smallest group
    assert_eq!(schnorr_keygen(&GroupParams { p: 3, g: 2, q: 2 }), Some(KeyPair { x: 1, y: 2 }));
}

#[test]
fn keygen_without_a_group_gives_nothing() {
    assert_eq!(schnorr_keygen(&GroupParams { p: 199, g: 61, q: 1 }), None);
    assert_eq!(schnorr_keygen(&GroupParams { p: 199, g: 61, q: 0 }), None);
    assert_eq!(schnorr_keygen(&GroupParams { p: 0, g: 61, q: 11 }), None);
}

// A flipped bit of s changes the commitment that the verifier hashes
#[test]
fn flipped_response_changes_the_commitment() {
    let (p, g) = (199u128, 61u128);
    for x in 1u128..11 {
        let y = modpow(g, x, p);
        for h in 0u128..11 {
            for s in 0u128..256 {
                let commitment = modpow(g, s, p) * modpow(y, h, p) % p;
                for bit in 0..8 {
                    let flipped = s ^ (1 << bit);
                    assert_ne!(modpow(g, flipped, p) * modpow(y, h, p) % p, commitment);
                }
            }
        }
    }
}
