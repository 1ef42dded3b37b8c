//! The signing pipeline on groups whose numbers fit 32 bits, with the
//! permutation of the 32-bit profile: the secret, the nonce and the commitment
//! stay encrypted, and only the two numbers of the signature are decrypted.

use crate::constants::{SCH_G_32, SCH_P_32, SCH_Q_16};
use crate::enc32::{add32_scalar, clone32, decrypted32, fits32, rem32_scalar, sound32, Encrypted32};
use crate::engine::{fits_public, init_keys, public_pair, serves, Evaluator};
use crate::groups::lemma_cycle_32;
use crate::modarith64::{mul_mod_64, narrow_64, sub_mod_64, widen_32};
use crate::modular::pow_mod;
use crate::poseidon::{
    clear_profile_p32, fits_inputs32, plain_inputs32, poseidon_p32, profile_p32, rounds_p32,
};
use crate::poseidon_spec::Profile;
use crate::schnorr::{
    challenge, hash_inputs, lemma_group_accepts_its_signatures, nonce, schnorr_public_key,
    schnorr_verify, GroupParams, Signature, SignedRun,
};
use crate::utils::fhe2_modexp_64;
use tfhe::{ClientKey, CompactPublicKey};
use vstd::arithmetic::div_mod::lemma_mod_bound;
use vstd::prelude::*;

verus! {

/// The group with the 32-bit prime.
pub open spec fn group_p32() -> GroupParams {
    GroupParams { p: SCH_P_32 as u64, g: SCH_G_32 as u64, q: SCH_Q_16 as u64 }
}

/// The group with the 32-bit prime, as the clear functions take it.
pub fn group_params_p32() -> (group: GroupParams)
    ensures
        group == group_p32(),
        group.is_cycle(),
{
    proof {
        lemma_cycle_32();
    }
    GroupParams { p: SCH_P_32 as u64, g: SCH_G_32 as u64, q: SCH_Q_16 as u64 }
}

/// The numbers of the group fit 32 bits, and the generator is a residue.
pub open spec fn fits_p32(group: GroupParams) -> bool {
    0 < group.g < group.p <= u32::MAX && 1 < group.q <= u32::MAX
}

/// Verifies a signature of 32-bit numbers on clear integers, with the
/// permutation of the 32-bit profile.
pub fn verify_p32(
    group: &GroupParams,
    y: u32,
    msg: u32,
    s: u32,
    h: u32,
    r_full: usize,
    r_partial: usize,
) -> (ok: bool)
    requires
        rounds_p32(r_full, r_partial),
        group.p > 0,
        group.q > 0,
    ensures
        ok == group.accepts(
            profile_p32(r_full, r_partial),
            y as int,
            msg as int,
            s as int,
            h as int,
        ),
{
    let profile = clear_profile_p32(r_full, r_partial);
    let sig = Signature { s: s as u64, h: h as u64 };
    schnorr_verify(group, &profile, y as u64, msg as u64, &sig)
}

/// Signs the encrypted message under the encrypted secret, in any group whose
/// numbers fit 32 bits. Each step works on ciphertexts: the nonce `k` is the
/// hash of message and secret moved into `1..q`; the commitment `g^k mod p` is
/// taken with the oblivious exponentiation, in the 64-bit container; the
/// challenge `h` is the hash of message and commitment modulo `q`; the
/// response is `(k + q - x * h) mod q`. The constants that the engine needs
/// encrypted are encrypted under the public key. Under every client key that
/// the evaluation key serves and the public key belongs to, the two
/// ciphertexts hold the signature of the value of the message under the value
/// of the secret.
pub fn sign_p32(
    ev: &Evaluator,
    public_key: &CompactPublicKey,
    group: &GroupParams,
    msg_enc: &Encrypted32,
    x_sch_enc: &Encrypted32,
    r_full: usize,
    r_partial: usize,
) -> (sig: (Encrypted32, Encrypted32))
    requires
        rounds_p32(r_full, r_partial),
        fits_p32(*group),
        fits_public(*ev, *public_key),
        fits32(*ev, *msg_enc),
        fits32(*ev, *x_sch_enc),
    ensures
        fits32(*ev, sig.0),
        fits32(*ev, sig.1),
        forall|k: ClientKey|
            #![trigger sound32(sig.0, k)]
            #![trigger sound32(sig.1, k)]
            #![trigger decrypted32(sig.0, k)]
            #![trigger decrypted32(sig.1, k)]
            serves(*ev, k) && public_pair(k, *public_key) && sound32(*msg_enc, k) && sound32(
                *x_sch_enc,
                k,
            ) ==> sound32(sig.0, k) && sound32(sig.1, k) && (
            decrypted32(sig.0, k) as int,
            decrypted32(sig.1, k) as int,
        ) == group.signs(
                profile_p32(r_full, r_partial),
                decrypted32(*msg_enc, k) as int,
                decrypted32(*x_sch_enc, k) as int,
            ),
{
    let ghost pr: Profile = profile_p32(r_full, r_partial);
    let q: u32 = group.q as u32;
    let zero_enc = Encrypted32::encrypt_public(0, public_key);
    let zero_enc2 = Encrypted32::encrypt_public(0, public_key);
    let ghost owner = choose|k: ClientKey| serves(*ev, k) && public_pair(k, *public_key);
    proof {
        assert(sound32(zero_enc, owner) && sound32(zero_enc2, owner));
        assert(fits32(*ev, zero_enc) && fits32(*ev, zero_enc2));
    }

    // the nonce, in 1..q
    let mut nonce_inputs: Vec<&Encrypted32> = Vec::new();
    nonce_inputs.push(msg_enc);
    nonce_inputs.push(x_sch_enc);
    nonce_inputs.push(&zero_enc);
    nonce_inputs.push(&zero_enc2);
    let ghost nonce_view = nonce_inputs@;
    assert(fits_inputs32(*ev, nonce_view));
    let k_hash = poseidon_p32(ev, nonce_inputs, r_full, r_partial);
    let k_rem = rem32_scalar(ev, &k_hash, q - 1);
    let k_enc = add32_scalar(ev, &k_rem, 1);
    let k_enc_up = widen_32(ev, k_enc);

    // the commitment g^k mod p
    let g_enc = Encrypted32::encrypt_public(group.g as u32, public_key);
    proof {
        assert(sound32(g_enc, owner));
        assert(fits32(*ev, g_enc));
    }
    let g_enc_up = widen_32(ev, g_enc);
    let r_enc_up = fhe2_modexp_64(ev, &g_enc_up, &k_enc_up, group.p as u64);
    let r_enc = narrow_64(ev, r_enc_up);

    // the challenge
    let mut challenge_inputs: Vec<&Encrypted32> = Vec::new();
    challenge_inputs.push(msg_enc);
    challenge_inputs.push(&r_enc);
    challenge_inputs.push(&zero_enc);
    challenge_inputs.push(&zero_enc2);
    let ghost challenge_view = challenge_inputs@;
    assert(fits_inputs32(*ev, challenge_view));
    let h_hash = poseidon_p32(ev, challenge_inputs, r_full, r_partial);
    let h_enc = rem32_scalar(ev, &h_hash, q);

    // the response (k + q - x * h) mod q
    let x_sch_enc_up = widen_32(ev, clone32(x_sch_enc));
    let h_enc_up = widen_32(ev, clone32(&h_enc));
    let hx_enc_up = mul_mod_64(ev, &x_sch_enc_up, &h_enc_up, q as u64);
    let s_enc_up = sub_mod_64(ev, &k_enc_up, &hx_enc_up, q as u64);
    let s_enc = narrow_64(ev, s_enc_up);

    proof {
        assert forall|k: ClientKey|
            serves(*ev, k) && public_pair(k, *public_key) && sound32(*msg_enc, k) && sound32(
                *x_sch_enc,
                k,
            ) implies sound32(s_enc, k) && sound32(h_enc, k) && (
            decrypted32(s_enc, k) as int,
            decrypted32(h_enc, k) as int,
        ) == group.signs(
            pr,
            decrypted32(*msg_enc, k) as int,
            decrypted32(*x_sch_enc, k) as int,
        ) by {
            let p: int = group.p as int;
            let g: int = group.g as int;
            let order: int = group.q as int;
            assert((p - 1) * (p - 1) <= u32::MAX * u32::MAX) by (nonlinear_arith)
                requires
                    0 < p <= u32::MAX,
            ;
            let m: int = decrypted32(*msg_enc, k) as int;
            let x: int = decrypted32(*x_sch_enc, k) as int;
            // nonce
            assert(plain_inputs32(nonce_view, k) =~= hash_inputs(m, x));
            let kv: int = nonce(pr, order, m, x);
            // commitment
            let rv: int = pow_mod(g, kv as nat, p);
            lemma_mod_bound(vstd::arithmetic::power::pow(g, kv as nat), p);
            // challenge
            assert(plain_inputs32(challenge_view, k) =~= hash_inputs(m, rv));
            let hv: int = challenge(pr, order, m, rv);
            // response
            assert(0 <= x * hv <= u32::MAX * (order - 1)) by (nonlinear_arith)
                requires
                    0 <= x <= u32::MAX,
                    0 <= hv <= order - 1,
            ;
        }
    }
    (s_enc, h_enc)
}

/// One run of the scheme in a group whose numbers fit 32 bits: makes the keys
/// of the engine, installs the evaluation key, derives the public key of the
/// secret `x_sch`, encrypts secret and message, signs under encryption,
/// decrypts the two numbers of the signature and verifies them on clear
/// integers. Whatever keys the engine draws, the signature is the one that the
/// scheme defines for the message and the secret, and the verification accepts
/// it.
pub fn sign_and_verify_p32(
    group: &GroupParams,
    x_sch: u32,
    msg: u32,
    r_full: usize,
    r_partial: usize,
) -> (run: SignedRun)
    requires
        rounds_p32(r_full, r_partial),
        group.is_cycle(),
        fits_p32(*group),
    ensures
        run.y == group.public_key(x_sch as int),
        run.signature@ == group.signs(profile_p32(r_full, r_partial), msg as int, x_sch as int),
        run.verified,
{
    let (client_key, server_key, public_key) = init_keys();
    let ev = Evaluator::new(server_key);
    let y: u64 = schnorr_public_key(group, x_sch as u64);

    let x_sch_enc = Encrypted32::encrypt(x_sch, &client_key);
    let msg_enc = Encrypted32::encrypt_public(msg, &public_key);
    proof {
        assert(serves(ev, client_key) && public_pair(client_key, public_key));
        assert(sound32(msg_enc, client_key) && sound32(x_sch_enc, client_key));
    }
    let (s_enc, h_enc) = sign_p32(
        &ev,
        &public_key,
        group,
        &msg_enc,
        &x_sch_enc,
        r_full,
        r_partial,
    );

    let s_dec: u32 = s_enc.decrypt(&client_key);
    let h_dec: u32 = h_enc.decrypt(&client_key);
    proof {
        lemma_group_accepts_its_signatures(
            *group,
            profile_p32(r_full, r_partial),
            msg as int,
            x_sch as nat,
        );
    }
    let verified = verify_p32(group, y as u32, msg, s_dec, h_dec, r_full, r_partial);
    SignedRun { y, signature: Signature { s: s_dec as u64, h: h_dec as u64 }, verified }
}

} // verus!
