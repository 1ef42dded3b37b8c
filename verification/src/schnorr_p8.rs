//! The signing pipeline on groups whose numbers fit 8 bits, with the
//! permutation of the 8-bit profile: the secret, the nonce and the commitment
//! stay encrypted, and only the two numbers of the signature are decrypted.

use crate::constants::{SCH_G_8, SCH_P_8, SCH_Q_4};
use crate::enc8::{add8_scalar, clone8, decrypted8, fits8, rem8_scalar, sound8, Encrypted8};
use crate::engine::{fits_public, init_keys, public_pair, serves, Evaluator};
use crate::groups::lemma_cycle_8;
use crate::modarith16::{mul_mod_16, narrow_16, sub_mod_16, widen_8};
use crate::modular::pow_mod;
use crate::poseidon_p8::{
    clear_profile_p8, fits_inputs8, plain_inputs8, poseidon_p8_impl, profile_p8, rounds_p8,
};
use crate::poseidon_spec::Profile;
use crate::schnorr::{
    challenge, hash_inputs, lemma_group_accepts_its_signatures, nonce, schnorr_public_key,
    schnorr_verify, GroupParams, Signature, SignedRun,
};
use crate::utils::fhe2_modexp_16;
use tfhe::{ClientKey, CompactPublicKey};
use vstd::arithmetic::div_mod::lemma_mod_bound;
use vstd::prelude::*;

verus! {

/// The group with the 8-bit prime.
pub open spec fn group_p8() -> GroupParams {
    GroupParams { p: SCH_P_8 as u64, g: SCH_G_8 as u64, q: SCH_Q_4 as u64 }
}

/// The group with the 8-bit prime, as the clear functions take it.
pub fn group_params_p8() -> (group: GroupParams)
    ensures
        group == group_p8(),
        group.is_cycle(),
{
    proof {
        lemma_cycle_8();
    }
    GroupParams { p: SCH_P_8 as u64, g: SCH_G_8 as u64, q: SCH_Q_4 as u64 }
}

/// The numbers of the group fit 8 bits, and the generator is a residue.
pub open spec fn fits_p8(group: GroupParams) -> bool {
    0 < group.g < group.p <= u8::MAX && 1 < group.q <= u8::MAX
}

/// Verifies a signature of 8-bit numbers on clear integers, with the
/// permutation of the 8-bit profile.
pub fn verify_p8(
    group: &GroupParams,
    y: u8,
    msg: u8,
    s: u8,
    h: u8,
    r_full: usize,
    r_partial: usize,
) -> (ok: bool)
    requires
        rounds_p8(r_full, r_partial),
        group.p > 0,
        group.q > 0,
    ensures
        ok == group.accepts(
            profile_p8(r_full, r_partial),
            y as int,
            msg as int,
            s as int,
            h as int,
        ),
{
    let profile = clear_profile_p8(r_full, r_partial);
    let sig = Signature { s: s as u64, h: h as u64 };
    schnorr_verify(group, &profile, y as u64, msg as u64, &sig)
}

/// Signs the encrypted message under the encrypted secret, in any group whose
/// numbers fit 8 bits. Each step works on ciphertexts: the nonce `k` is the
/// hash of message and secret moved into `1..q`; the commitment `g^k mod p` is
/// taken with the oblivious exponentiation, in the 16-bit container; the
/// challenge `h` is the hash of message and commitment modulo `q`; the
/// response is `(k + q - x * h) mod q`. The constants that the engine needs
/// encrypted are encrypted under the public key. Under every client key that
/// the evaluation key serves and the public key belongs to, the two
/// ciphertexts hold the signature of the value of the message under the value
/// of the secret.
pub fn sign_p8(
    ev: &Evaluator,
    public_key: &CompactPublicKey,
    group: &GroupParams,
    msg_enc: &Encrypted8,
    x_sch_enc: &Encrypted8,
    r_full: usize,
    r_partial: usize,
) -> (sig: (Encrypted8, Encrypted8))
    requires
        rounds_p8(r_full, r_partial),
        fits_p8(*group),
        fits_public(*ev, *public_key),
        fits8(*ev, *msg_enc),
        fits8(*ev, *x_sch_enc),
    ensures
        fits8(*ev, sig.0),
        fits8(*ev, sig.1),
        forall|k: ClientKey|
            #![trigger sound8(sig.0, k)]
            #![trigger sound8(sig.1, k)]
            #![trigger decrypted8(sig.0, k)]
            #![trigger decrypted8(sig.1, k)]
            serves(*ev, k) && public_pair(k, *public_key) && sound8(*msg_enc, k) && sound8(
                *x_sch_enc,
                k,
            ) ==> sound8(sig.0, k) && sound8(sig.1, k) && (
            decrypted8(sig.0, k) as int,
            decrypted8(sig.1, k) as int,
        ) == group.signs(
                profile_p8(r_full, r_partial),
                decrypted8(*msg_enc, k) as int,
                decrypted8(*x_sch_enc, k) as int,
            ),
{
    let ghost pr: Profile = profile_p8(r_full, r_partial);
    let q: u8 = group.q as u8;
    let zero_enc = Encrypted8::encrypt_public(0, public_key);
    let zero_enc2 = Encrypted8::encrypt_public(0, public_key);
    let ghost owner = choose|k: ClientKey| serves(*ev, k) && public_pair(k, *public_key);
    proof {
        assert(sound8(zero_enc, owner) && sound8(zero_enc2, owner));
        assert(fits8(*ev, zero_enc) && fits8(*ev, zero_enc2));
    }

    // the nonce, in 1..q
    let nonce_inputs: [&Encrypted8; 4] = [msg_enc, x_sch_enc, &zero_enc, &zero_enc2];
    assert(fits_inputs8(*ev, nonce_inputs));
    let k_hash = poseidon_p8_impl(ev, nonce_inputs, r_full, r_partial);
    let k_rem = rem8_scalar(ev, &k_hash, q - 1);
    let k_enc = add8_scalar(ev, &k_rem, 1);
    let k_enc_up = widen_8(ev, k_enc);

    // the commitment g^k mod p
    let g_enc = Encrypted8::encrypt_public(group.g as u8, public_key);
    proof {
        assert(sound8(g_enc, owner));
        assert(fits8(*ev, g_enc));
    }
    let g_enc_up = widen_8(ev, g_enc);
    let r_enc_up = fhe2_modexp_16(ev, &g_enc_up, &k_enc_up, group.p as u16);
    let r_enc = narrow_16(ev, r_enc_up);

    // the challenge
    let challenge_inputs: [&Encrypted8; 4] = [msg_enc, &r_enc, &zero_enc, &zero_enc2];
    assert(fits_inputs8(*ev, challenge_inputs));
    let h_hash = poseidon_p8_impl(ev, challenge_inputs, r_full, r_partial);
    let h_enc = rem8_scalar(ev, &h_hash, q);

    // the response (k + q - x * h) mod q
    let x_sch_enc_up = widen_8(ev, clone8(x_sch_enc));
    let h_enc_up = widen_8(ev, clone8(&h_enc));
    let hx_enc_up = mul_mod_16(ev, &x_sch_enc_up, &h_enc_up, q as u16);
    let s_enc_up = sub_mod_16(ev, &k_enc_up, &hx_enc_up, q as u16);
    let s_enc = narrow_16(ev, s_enc_up);

    proof {
        assert forall|k: ClientKey|
            serves(*ev, k) && public_pair(k, *public_key) && sound8(*msg_enc, k) && sound8(
                *x_sch_enc,
                k,
            ) implies sound8(s_enc, k) && sound8(h_enc, k) && (
            decrypted8(s_enc, k) as int,
            decrypted8(h_enc, k) as int,
        ) == group.signs(
            pr,
            decrypted8(*msg_enc, k) as int,
            decrypted8(*x_sch_enc, k) as int,
        ) by {
            let p: int = group.p as int;
            let g: int = group.g as int;
            let order: int = group.q as int;
            assert((p - 1) * (p - 1) <= u8::MAX * u8::MAX) by (nonlinear_arith)
                requires
                    0 < p <= u8::MAX,
            ;
            let m: int = decrypted8(*msg_enc, k) as int;
            let x: int = decrypted8(*x_sch_enc, k) as int;
            // nonce
            assert(plain_inputs8(nonce_inputs, k) =~= hash_inputs(m, x));
            let kv: int = nonce(pr, order, m, x);
            // commitment
            let rv: int = pow_mod(g, kv as nat, p);
            lemma_mod_bound(vstd::arithmetic::power::pow(g, kv as nat), p);
            // challenge
            assert(plain_inputs8(challenge_inputs, k) =~= hash_inputs(m, rv));
            let hv: int = challenge(pr, order, m, rv);
            // response
            assert(0 <= x * hv <= u8::MAX * (order - 1)) by (nonlinear_arith)
                requires
                    0 <= x <= u8::MAX,
                    0 <= hv <= order - 1,
            ;
        }
    }
    (s_enc, h_enc)
}

/// One run of the scheme in a group whose numbers fit 8 bits: makes the keys
/// of the engine, installs the evaluation key, derives the public key of the
/// secret `x_sch`, encrypts secret and message, signs under encryption,
/// decrypts the two numbers of the signature and verifies them on clear
/// integers. Whatever keys the engine draws, the signature is the one that the
/// scheme defines for the message and the secret, and the verification accepts
/// it.
pub fn sign_and_verify_p8(
    group: &GroupParams,
    x_sch: u8,
    msg: u8,
    r_full: usize,
    r_partial: usize,
) -> (run: SignedRun)
    requires
        rounds_p8(r_full, r_partial),
        group.is_cycle(),
        fits_p8(*group),
    ensures
        run.y == group.public_key(x_sch as int),
        run.signature@ == group.signs(profile_p8(r_full, r_partial), msg as int, x_sch as int),
        run.verified,
{
    let (client_key, server_key, public_key) = init_keys();
    let ev = Evaluator::new(server_key);
    let y: u64 = schnorr_public_key(group, x_sch as u64);

    let x_sch_enc = Encrypted8::encrypt(x_sch, &client_key);
    let msg_enc = Encrypted8::encrypt_public(msg, &public_key);
    proof {
        assert(serves(ev, client_key) && public_pair(client_key, public_key));
        assert(sound8(msg_enc, client_key) && sound8(x_sch_enc, client_key));
    }
    let (s_enc, h_enc) = sign_p8(
        &ev,
        &public_key,
        group,
        &msg_enc,
        &x_sch_enc,
        r_full,
        r_partial,
    );

    let s_dec: u8 = s_enc.decrypt(&client_key);
    let h_dec: u8 = h_enc.decrypt(&client_key);
    proof {
        lemma_group_accepts_its_signatures(
            *group,
            profile_p8(r_full, r_partial),
            msg as int,
            x_sch as nat,
        );
    }
    let verified = verify_p8(group, y as u8, msg, s_dec, h_dec, r_full, r_partial);
    SignedRun { y, signature: Signature { s: s_dec as u64, h: h_dec as u64 }, verified }
}

} // verus!
