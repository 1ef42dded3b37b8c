//! The Schnorr scheme on clear integers: what a signature is, when it is
//! accepted, and why every signature that the scheme makes is accepted.

use crate::bigint::{modpow, random_scalar};
use crate::groups::is_cycle;
use crate::modular::pow_mod;
use crate::poseidon_clear::{ints, poseidon_hash, PoseidonProfile};
use crate::poseidon_spec::{hash, width, Profile};
use vstd::arithmetic::div_mod::{lemma_fundamental_div_mod, lemma_mul_mod_noop_general};
use vstd::arithmetic::power::{lemma_pow_adds, lemma_pow_mod_noop, lemma_pow_multiplies, pow};
use vstd::prelude::*;

verus! {

/// The numbers that the scheme is run on: the modulus `p`, the generator `g`
/// and the number `q` that is taken for the order of the generator. The type
/// promises nothing of them; what the proofs need is [`GroupParams::is_cycle`].
#[derive(Clone, Copy, Debug, PartialEq, Eq, Structural)]
pub struct GroupParams {
    pub p: u64,
    pub g: u64,
    pub q: u64,
}

/// A key pair: the secret scalar `x` and the public `y = g^x mod p`.
#[derive(Clone, Copy, Debug, PartialEq, Eq, Structural)]
pub struct KeyPair {
    pub x: u64,
    pub y: u64,
}

/// A signature: the response `s` and the challenge `h`, both modulo `q`.
#[derive(Clone, Copy, Debug, PartialEq, Eq, Structural)]
pub struct Signature {
    pub s: u64,
    pub h: u64,
}

/// What one run of the scheme leaves in the clear: the public key, the
/// signature, and whether the signature was accepted.
#[derive(Clone, Copy, Debug, PartialEq, Eq, Structural)]
pub struct SignedRun {
    pub y: u64,
    pub signature: Signature,
    pub verified: bool,
}

impl GroupParams {
    /// The powers of the generator come back to one after `q` steps: see
    /// [`is_cycle`]. Whether `p` and `q` are prime is not part of it.
    pub open spec fn is_cycle(&self) -> bool {
        is_cycle(self.p as int, self.g as int, self.q as int)
    }

    /// Tests at run time whether the powers of the generator come back to one
    /// after `q` steps.
    pub fn check_cycle(&self) -> (ok: bool)
        ensures
            ok == self.is_cycle(),
    {
        if self.p > 1 && 0 < self.g && self.g < self.p && self.q > 1 {
            modpow(self.g as u128, self.q as u128, self.p as u128) == 1 && (self.p - 1) % self.q
                == 0
        } else {
            false
        }
    }
}

/// The four inputs of a hash in the scheme: the message, one more value, and
/// two zeros.
pub open spec fn hash_inputs(m: int, second: int) -> Seq<int> {
    seq![m, second, 0, 0]
}

/// The nonce of a signature: the hash of message and secret, moved into
/// `1..q` so that it is never zero.
pub open spec fn nonce(pr: Profile, q: int, m: int, x: int) -> int {
    hash(pr, hash_inputs(m, x)) % (q - 1) + 1
}

/// The challenge: the hash of message and commitment modulo `q`.
pub open spec fn challenge(pr: Profile, q: int, m: int, r: int) -> int {
    hash(pr, hash_inputs(m, r)) % q
}

/// The response `k - x * h` modulo `q`. The order is added before the product
/// is taken away, so that no step goes below zero.
pub open spec fn response(q: int, k: int, x: int, h: int) -> int {
    (k + q - (x * h) % q) % q
}

/// The signature `(s, h)` of the message `m` under the secret `x`.
pub open spec fn signature(pr: Profile, p: int, g: int, q: int, m: int, x: int) -> (int, int) {
    let k = nonce(pr, q, m, x);
    let r = pow_mod(g, k as nat, p);
    let h = challenge(pr, q, m, r);
    (response(q, k, x, h), h)
}

/// The commitment that a verifier computes back from a signature and the
/// public key.
pub open spec fn recovered_commitment(p: int, g: int, y: int, s: int, h: int) -> int {
    (pow_mod(g, s as nat, p) * pow_mod(y, h as nat, p)) % p
}

/// Whether `(s, h)` is accepted as a signature of `m` under the public key
/// `y`.
pub open spec fn accepts(pr: Profile, p: int, g: int, q: int, y: int, m: int, s: int, h: int) -> bool {
    challenge(pr, q, m, recovered_commitment(p, g, y, s, h)) == h
}

impl GroupParams {
    /// The public key that belongs to the secret `x`.
    pub open spec fn public_key(self, x: int) -> int {
        pow_mod(self.g as int, x as nat, self.p as int)
    }

    /// The signature `(s, h)` of the message `m` under the secret `x`.
    pub open spec fn signs(self, pr: Profile, m: int, x: int) -> (int, int) {
        signature(pr, self.p as int, self.g as int, self.q as int, m, x)
    }

    /// Whether `(s, h)` is accepted as a signature of `m` under the public key
    /// `y`.
    pub open spec fn accepts(self, pr: Profile, y: int, m: int, s: int, h: int) -> bool {
        accepts(pr, self.p as int, self.g as int, self.q as int, y, m, s, h)
    }
}

impl Signature {
    /// The two numbers of the signature.
    pub open spec fn view(&self) -> (int, int) {
        (self.s as int, self.h as int)
    }
}

/// Adding a multiple of the order to an exponent does not change the power of
/// the generator.
pub proof fn lemma_pow_order_multiple(g: int, q: nat, p: int, a: nat, j: nat)
    requires
        p > 1,
        pow_mod(g, q, p) == 1,
    ensures
        pow_mod(g, a + q * j, p) == pow_mod(g, a, p),
    decreases j,
{
    if j == 0 {
        assert(q * j == 0) by (nonlinear_arith)
            requires
                j == 0,
        ;
    } else {
        let before: nat = a + q * ((j - 1) as nat);
        lemma_pow_order_multiple(g, q, p, a, (j - 1) as nat);
        assert(a + q * j == before + q) by (nonlinear_arith)
            requires
                j > 0,
                before == a + q * ((j - 1) as nat),
        ;
        lemma_pow_adds(g, before, q);
        lemma_mul_mod_noop_general(pow(g, before), pow(g, q), p);
    }
}

/// The verifier of an honest signature computes the signer's commitment back.
pub proof fn lemma_commitment_recovered(p: int, g: int, q: int, k: int, x: nat, h: int)
    requires
        p > 1,
        q > 1,
        pow_mod(g, q as nat, p) == 1,
        0 <= k < q,
        0 <= h,
    ensures
        recovered_commitment(p, g, pow_mod(g, x, p), response(q, k, x as int, h), h) == pow_mod(
            g,
            k as nat,
            p,
        ),
{
    let t: int = (x * h) % q;
    let s: int = response(q, k, x as int, h);
    // the exponents: s + x * h and k differ by a multiple of q that is not negative
    let d: int = (k + q - t) / q;
    let e: int = (x * h) / q;
    lemma_fundamental_div_mod(k + q - t, q);
    lemma_fundamental_div_mod(x * h, q);
    let j: int = 1 - d + e;
    assert(s + x * h == k + q * j) by (nonlinear_arith)
        requires
            k + q - t == q * d + s,
            x * h == q * e + t,
            j == 1 - d + e,
    ;
    assert(j >= 0) by (nonlinear_arith)
        requires
            s + x * h == k + q * j,
            0 <= s,
            0 <= x * h,
            k < q,
            q > 1,
    ;
    // y^h is g^(x * h) modulo p
    lemma_pow_mod_noop(pow(g, x), h as nat, p);
    lemma_pow_multiplies(g, x, h as nat);
    // the product of the two powers is g^(s + x * h) modulo p
    lemma_mul_mod_noop_general(pow(g, s as nat), pow(g, (x * h) as nat), p);
    lemma_pow_adds(g, s as nat, (x * h) as nat);
    lemma_pow_order_multiple(g, q as nat, p, k as nat, j as nat);
    assert((k as nat) + (q as nat) * (j as nat) == (s + x * h) as nat) by (nonlinear_arith)
        requires
            s + x * h == k + q * j,
            k >= 0,
            q >= 0,
            j >= 0,
    ;
}

/// Every signature that the scheme makes is accepted under the public key of
/// the secret that made it: for any group whose generator has order `q`, any
/// message and any secret, `accepts` holds of `signature`.
pub proof fn lemma_signature_accepted(pr: Profile, p: int, g: int, q: int, m: int, x: nat)
    requires
        p > 1,
        q > 1,
        pow_mod(g, q as nat, p) == 1,
    ensures
        accepts(
            pr,
            p,
            g,
            q,
            pow_mod(g, x, p),
            m,
            signature(pr, p, g, q, m, x as int).0,
            signature(pr, p, g, q, m, x as int).1,
        ),
{
    let k = nonce(pr, q, m, x as int);
    let r = pow_mod(g, k as nat, p);
    let h = challenge(pr, q, m, r);
    lemma_commitment_recovered(p, g, q, k, x, h);
}

/// In every group the scheme accepts its own signatures: what `signs` gives
/// for a message and a secret, `accepts` takes under the public key of that
/// secret.
pub proof fn lemma_group_accepts_its_signatures(group: GroupParams, pr: Profile, m: int, x: nat)
    requires
        group.is_cycle(),
    ensures
        group.accepts(
            pr,
            group.public_key(x as int),
            m,
            group.signs(pr, m, x as int).0,
            group.signs(pr, m, x as int).1,
        ),
{
    lemma_signature_accepted(pr, group.p as int, group.g as int, group.q as int, m, x);
}

/// The four inputs of a hash in the scheme, as the clear permutation takes
/// them.
fn clear_hash_inputs(m: u64, second: u64) -> (inputs: Vec<u64>)
    ensures
        inputs.len() == width(),
        ints(inputs@) == hash_inputs(m as int, second as int),
{
    let mut inputs: Vec<u64> = Vec::new();
    inputs.push(m);
    inputs.push(second);
    inputs.push(0);
    inputs.push(0);
    inputs
}

/// The public key that belongs to the secret `x`: `g^x mod p`.
pub fn schnorr_public_key(group: &GroupParams, x: u64) -> (y: u64)
    requires
        group.p > 0,
    ensures
        y == group.public_key(x as int),
        y < group.p,
{
    modpow(group.g as u128, x as u128, group.p as u128) as u64
}

/// Draws a key pair: a secret `x` from `1..q` and the public key that belongs
/// to it. `None` where the group leaves no secret to draw.
pub fn schnorr_keygen(group: &GroupParams) -> (pair: Option<KeyPair>)
    ensures
        pair is Some <==> group.q > 1 && group.p > 0,
        pair matches Some(keys) ==> 1 <= keys.x < group.q && keys.y == group.public_key(
            keys.x as int,
        ),
{
    if group.p == 0 {
        return None;
    }
    match random_scalar(group.q) {
        Some(x) => Some(KeyPair { x, y: schnorr_public_key(group, x) }),
        None => None,
    }
}

/// Signs the message `msg` under the secret `x` on clear integers, step by
/// step as the encrypted pipeline does: nonce, commitment, challenge,
/// response.
pub fn schnorr_sign_clear(group: &GroupParams, profile: &PoseidonProfile, x: u64, msg: u64) -> (sig:
    Signature)
    requires
        group.p > 0,
        group.q > 1,
        profile.wf(),
    ensures
        sig@ == group.signs(profile@, msg as int, x as int),
        sig.s < group.q,
        sig.h < group.q,
{
    let q: u64 = group.q;
    let k: u64 = poseidon_hash(profile, &clear_hash_inputs(msg, x)) % (q - 1) + 1;
    let r: u64 = modpow(group.g as u128, k as u128, group.p as u128) as u64;
    let h: u64 = poseidon_hash(profile, &clear_hash_inputs(msg, r)) % q;
    assert(x * h <= u128::MAX) by (nonlinear_arith)
        requires
            x <= u64::MAX,
            h <= u64::MAX,
    ;
    let hx: u128 = ((x as u128) * (h as u128)) % (q as u128);
    let s: u128 = (k as u128 + q as u128 - hx) % (q as u128);
    Signature { s: s as u64, h }
}

/// Verifies a signature on clear integers: computes the commitment back from
/// `(s, h)` and the public key `y`, hashes it with the message, and compares
/// the challenge. A signature that does not fit is a `false`, never a failure.
pub fn schnorr_verify(
    group: &GroupParams,
    profile: &PoseidonProfile,
    y: u64,
    msg: u64,
    sig: &Signature,
) -> (ok: bool)
    requires
        group.p > 0,
        group.q > 0,
        profile.wf(),
    ensures
        ok == group.accepts(profile@, y as int, msg as int, sig.s as int, sig.h as int),
{
    let left: u128 = modpow(group.g as u128, sig.s as u128, group.p as u128);
    let right: u128 = modpow(y as u128, sig.h as u128, group.p as u128);
    assert(left * right <= u128::MAX) by (nonlinear_arith)
        requires
            left <= u64::MAX,
            right <= u64::MAX,
    ;
    let r_v: u64 = ((left * right) % (group.p as u128)) as u64;
    let h_v: u64 = poseidon_hash(profile, &clear_hash_inputs(msg, r_v)) % group.q;
    h_v == sig.h
}

} // verus!
