//! What can be proved of a tampered signature. Whether it is rejected is a
//! matter of chance: the verifier hashes what it computes back, and a hash may
//! collide. What is certain is the step before: where the generator has the
//! exact order `q`, another response gives another commitment to hash.

use crate::constants::{SCH_G_8, SCH_P_8, SCH_Q_4};
use crate::groups::{is_cycle, lemma_cycle_8};
use crate::modular::{lemma_pow_mod_adds, pow_mod};
use crate::schnorr::{lemma_pow_order_multiple, recovered_commitment};
use vstd::arithmetic::div_mod::{
    lemma_fundamental_div_mod, lemma_mod_bound, lemma_mul_mod_noop_general,
};
use vstd::arithmetic::power::{
    lemma_pow0, lemma_pow1, lemma_pow_adds, lemma_pow_mod_noop, lemma_pow_multiplies, pow,
};
use vstd::prelude::*;

verus! {

/// The generator has the exact order `q`: its powers come back to one after
/// `q` steps, and no two of the `q` powers before that are the same.
pub open spec fn has_exact_order(p: int, g: int, q: int) -> bool {
    &&& is_cycle(p, g, q)
    &&& forall|a: nat, b: nat| a < b < q ==> pow_mod(g, a, p) != pow_mod(g, b, p)
}

/// The power of the generator depends on the exponent modulo the order alone.
pub proof fn lemma_pow_by_residue(p: int, g: int, q: int, a: nat)
    requires
        is_cycle(p, g, q),
    ensures
        pow_mod(g, a, p) == pow_mod(g, (a % (q as nat)), p),
{
    let n: nat = q as nat;
    lemma_fundamental_div_mod(a as int, q);
    lemma_mod_bound(a as int, q);
    assert(a / n >= 0);
    assert(a == (a % n) + n * (a / n)) by (nonlinear_arith)
        requires
            a as int == q * ((a as int) / q) + (a as int) % q,
            n == q,
            q > 0,
            a / n == (a as int) / q,
            a % n == (a as int) % q,
    ;
    lemma_pow_order_multiple(g, n, p, a % n, a / n);
}

/// What the verifier computes back from `(s, h)` under the public key of the
/// secret `x` is the power of the generator to `s + x * h`.
pub proof fn lemma_recovered_is_power(p: int, g: int, x: nat, s: nat, h: nat)
    requires
        p > 1,
    ensures
        recovered_commitment(p, g, pow_mod(g, x, p), s as int, h as int) == pow_mod(
            g,
            s + x * h,
            p,
        ),
{
    lemma_pow_mod_noop(pow(g, x), h, p);
    lemma_pow_multiplies(g, x, h);
    lemma_mul_mod_noop_general(pow(g, s), pow(g, x * h), p);
    lemma_pow_adds(g, s, x * h);
}

/// A tampered response changes what the verifier hashes: where the generator
/// has the exact order `q`, two responses that differ modulo `q` give, with the
/// same challenge and under the public key of any secret, two different
/// commitments.
pub proof fn lemma_tampered_response_changes_commitment(
    p: int,
    g: int,
    q: int,
    x: nat,
    s: nat,
    t: nat,
    h: nat,
)
    requires
        has_exact_order(p, g, q),
        s % (q as nat) != t % (q as nat),
    ensures
        recovered_commitment(p, g, pow_mod(g, x, p), s as int, h as int) != recovered_commitment(
            p,
            g,
            pow_mod(g, x, p),
            t as int,
            h as int,
        ),
{
    let n: nat = q as nat;
    let a: nat = (s + x * h) % n;
    let b: nat = (t + x * h) % n;
    lemma_recovered_is_power(p, g, x, s, h);
    lemma_recovered_is_power(p, g, x, t, h);
    lemma_pow_by_residue(p, g, q, s + x * h);
    lemma_pow_by_residue(p, g, q, t + x * h);
    lemma_mod_bound((s + x * h) as int, q);
    lemma_mod_bound((t + x * h) as int, q);
    assert(a != b) by {
        vstd::arithmetic::div_mod::lemma_add_mod_noop(s as int, (x * h) as int, q);
        vstd::arithmetic::div_mod::lemma_add_mod_noop(t as int, (x * h) as int, q);
        lemma_mod_bound(s as int, q);
        lemma_mod_bound(t as int, q);
        lemma_mod_bound((x * h) as int, q);
        let u: int = (s as int) % q;
        let v: int = (t as int) % q;
        let w: int = ((x * h) as int) % q;
        // u + w and v + w are below 2 q and differ by less than q
        if (u + w) % q == (v + w) % q {
            lemma_fundamental_div_mod(u + w, q);
            lemma_fundamental_div_mod(v + w, q);
            let du: int = (u + w) / q;
            let dv: int = (v + w) / q;
            assert(u - v == q * (du - dv)) by (nonlinear_arith)
                requires
                    u + w == q * du + (u + w) % q,
                    v + w == q * dv + (v + w) % q,
                    (u + w) % q == (v + w) % q,
            ;
            assert(du == dv) by (nonlinear_arith)
                requires
                    u - v == q * (du - dv),
                    -q < u - v < q,
                    q > 0,
            ;
        }
    }
    if a < b {
        assert(pow_mod(g, a, p) != pow_mod(g, b, p));
    } else {
        assert(pow_mod(g, b, p) != pow_mod(g, a, p));
    }
}

/// The eleven powers of the generator of the 8-bit group.
pub open spec fn powers_p8(j: int) -> int {
    if j == 0 {
        1
    } else if j == 1 {
        61
    } else if j == 2 {
        139
    } else if j == 3 {
        121
    } else if j == 4 {
        18
    } else if j == 5 {
        103
    } else if j == 6 {
        114
    } else if j == 7 {
        188
    } else if j == 8 {
        125
    } else if j == 9 {
        63
    } else {
        62
    }
}

/// Below the order, the powers of the generator of the 8-bit group are the
/// eleven numbers of `powers_p8`.
pub proof fn lemma_powers_p8(j: nat)
    requires
        j < 11,
    ensures
        pow_mod(61, j, 199) == powers_p8(j as int),
    decreases j,
{
    if j == 0 {
        lemma_pow0(61);
    } else {
        lemma_powers_p8((j - 1) as nat);
        lemma_pow1(61);
        lemma_pow_mod_adds(61, (j - 1) as nat, 1, 199);
    }
}

/// In the 8-bit group the generator has the exact order 11.
pub proof fn lemma_exact_order_p8()
    ensures
        has_exact_order(SCH_P_8 as int, SCH_G_8 as int, SCH_Q_4 as int),
{
    lemma_cycle_8();
    assert forall|a: nat, b: nat| a < b < 11 implies pow_mod(61, a, 199) != pow_mod(
        61,
        b,
        199,
    ) by {
        lemma_powers_p8(a);
        lemma_powers_p8(b);
    }
}

/// In the 8-bit group a flipped bit of the response changes what the verifier
/// hashes: no power of two below 256 is a multiple of 11, so the flipped
/// response differs from the true one modulo the order.
pub proof fn lemma_flipped_bit_changes_commitment_p8(x: nat, s: u8, bit: u8, h: nat)
    requires
        bit < 8,
    ensures
        recovered_commitment(
            SCH_P_8 as int,
            SCH_G_8 as int,
            pow_mod(SCH_G_8 as int, x, SCH_P_8 as int),
            (s ^ (1u8 << bit)) as int,
            h as int,
        ) != recovered_commitment(
            SCH_P_8 as int,
            SCH_G_8 as int,
            pow_mod(SCH_G_8 as int, x, SCH_P_8 as int),
            s as int,
            h as int,
        ),
{
    let flipped: u8 = s ^ (1u8 << bit);
    assert(flipped % 11 != s % 11) by (bit_vector)
        requires
            bit < 8,
            flipped == s ^ (1u8 << bit),
    ;
    lemma_exact_order_p8();
    lemma_tampered_response_changes_commitment(199, 61, 11, x, flipped as nat, s as nat, h);
}

} // verus!
