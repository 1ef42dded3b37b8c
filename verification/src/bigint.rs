//! Clear modular exponentiation and the drawing of a secret scalar, both done
//! by outside crates.

use crate::modular::pow_mod;
use num_bigint::BigUint;
use num_traits::ToPrimitive;
use rand::Rng;
use rand::rngs::OsRng;
use vstd::arithmetic::div_mod::lemma_mod_bound;
use vstd::prelude::*;

verus! {

/// `BigUint::modpow`: `base` to the power `exp` modulo `modulus`. The call
/// panics on a zero modulus. The result is below the modulus, so it fits.
#[verifier::external_body]
fn biguint_modpow(base: u128, exp: u128, modulus: u128) -> (r: u128)
    requires
        modulus > 0,
    ensures
        r == pow_mod(base as int, exp as nat, modulus as int),
{
    let power = BigUint::from(base).modpow(&BigUint::from(exp), &BigUint::from(modulus));
    power.to_u128().unwrap()
}

/// `Rng::gen_range` on the operating system's generator: a number drawn
/// uniformly from `low..high`. The call panics on an empty range. Of the
/// number drawn only the range is known.
#[verifier::external_body]
fn os_random_in(low: u64, high: u64) -> (r: u64)
    requires
        low < high,
    ensures
        low <= r < high,
{
    let mut rng = OsRng;
    rng.gen_range(low..high)
}

/// `base` to the power `exp` modulo `modulus`, for a modulus other than zero.
pub fn modpow(base: u128, exp: u128, modulus: u128) -> (r: u128)
    requires
        modulus > 0,
    ensures
        r == pow_mod(base as int, exp as nat, modulus as int),
        r < modulus,
{
    proof {
        lemma_mod_bound(vstd::arithmetic::power::pow(base as int, exp as nat), modulus as int);
    }
    biguint_modpow(base, exp, modulus)
}

/// A secret scalar for a group of order `q`: drawn from `1..q`, so never zero.
/// `None` where that range is empty.
pub fn random_scalar(q: u64) -> (x: Option<u64>)
    ensures
        x is Some <==> q > 1,
        x matches Some(v) ==> 1 <= v < q,
{
    if q > 1 {
        Some(os_random_in(1, q))
    } else {
        None
    }
}

} // verus!
