//! Exponentiation of encrypted integers by square-and-multiply, at each of the
//! widths that the engine is used at.

use crate::enc128::{
    clone128, decrypted128, fits128, mul128, sound128, wrap128, Encrypted128,
};
use crate::enc16::{
    and16_scalar, clone16, decrypted16, eq16_scalar, fits16, mul16, rem16_scalar, select16,
    shr16_assign, sound16, sub16_scalar, wrap16, Encrypted16,
};
use crate::enc32::{clone32, decrypted32, fits32, mul32, sound32, wrap32, Encrypted32};
use crate::enc64::{
    and64_scalar, clone64, decrypted64, eq64_scalar, fits64, mul64, rem64_scalar, select64,
    shr64_assign, sound64, sub64_scalar, wrap64, Encrypted64,
};
use crate::engine::{serves, sound_bool, Evaluator};
pub use crate::engine::init_keys;
use crate::modarith16::mul_mod_16;
use crate::modarith64::mul_mod_64;
use crate::modular::{
    lemma_residue_product_fits, lemma_square_multiply_step, lift_safe, pow_mod,
};
use tfhe::ClientKey;
use vstd::arithmetic::div_mod::{lemma_mod_bound, lemma_mul_mod_noop_general, lemma_small_mod};
use vstd::arithmetic::power2::{lemma2_to64, lemma_pow2_unfold, pow2};
use vstd::arithmetic::power::{lemma_pow0, lemma_pow1, lemma_pow_adds, lemma_pow_mod_noop, pow};
use vstd::prelude::*;

verus! {

/// `base` to the power `exp` by one multiplication per step; the products wrap
/// at 128 bits. It starts from `base`, so there is no power zero to ask for.
pub fn fhe_exp_128_naive(ev: &Evaluator, base: &Encrypted128, exp: u128) -> (result: Encrypted128)
    requires
        fits128(*ev, *base),
        exp > 0,
    ensures
        fits128(*ev, result),
        forall|k: ClientKey|
            #![trigger sound128(result, k)]
            #![trigger decrypted128(result, k)]
            serves(*ev, k) && sound128(*base, k) ==> sound128(result, k) && decrypted128(result, k)
                == pow_mod(decrypted128(*base, k) as int, exp as nat, wrap128()),
{
    let mut result = clone128(base);
    let mut done: u128 = 1;
    proof {
        assert forall|k: ClientKey| serves(*ev, k) && sound128(*base, k) implies decrypted128(
            result,
            k,
        ) == pow_mod(decrypted128(*base, k) as int, 1, wrap128()) by {
            lemma_pow1(decrypted128(*base, k) as int);
        }
    }
    while done < exp
        invariant
            fits128(*ev, *base),
            fits128(*ev, result),
            1 <= done,
            done <= exp,
            forall|k: ClientKey|
                #![trigger sound128(result, k)]
                #![trigger decrypted128(result, k)]
                serves(*ev, k) && sound128(*base, k) ==> sound128(result, k) && decrypted128(
                    result,
                    k,
                ) == pow_mod(decrypted128(*base, k) as int, done as nat, wrap128()),
        decreases exp - done,
    {
        let next = mul128(ev, &result, base);
        proof {
            assert forall|k: ClientKey| serves(*ev, k) && sound128(*base, k) implies sound128(
                next,
                k,
            ) && decrypted128(next, k) == pow_mod(
                decrypted128(*base, k) as int,
                (done + 1) as nat,
                wrap128(),
            ) by {
                let b: int = decrypted128(*base, k) as int;
                lemma_pow_adds(b, done as nat, 1);
                lemma_pow1(b);
                lemma_mul_mod_noop_general(pow(b, done as nat), b, wrap128());
            }
        }
        result = next;
        done = done + 1;
    }
    result
}

/// `base` to the power `exp` by right-to-left square-and-multiply, driven by
/// the bits of the clear exponent; the products wrap at 128 bits. The
/// accumulator starts as `base`, so the loop works off `exp - 1`.
pub fn fhe_exp_128(ev: &Evaluator, base: &Encrypted128, exp: u128) -> (result: Encrypted128)
    requires
        fits128(*ev, *base),
        exp > 0,
    ensures
        fits128(*ev, result),
        forall|k: ClientKey|
            #![trigger sound128(result, k)]
            #![trigger decrypted128(result, k)]
            serves(*ev, k) && sound128(*base, k) ==> sound128(result, k) && decrypted128(result, k)
                == pow_mod(decrypted128(*base, k) as int, exp as nat, wrap128()),
{
    let mut result = clone128(base);
    let mut left: u128 = exp - 1;
    let mut power = clone128(base);
    proof {
        assert forall|k: ClientKey| serves(*ev, k) && sound128(*base, k) implies (decrypted128(
            result,
            k,
        ) * pow(decrypted128(power, k) as int, left as nat)) % wrap128() == pow_mod(
            decrypted128(*base, k) as int,
            exp as nat,
            wrap128(),
        ) by {
            let b: int = decrypted128(*base, k) as int;
            lemma_pow_adds(b, 1, left as nat);
            lemma_pow1(b);
        }
    }
    while left > 0
        invariant
            fits128(*ev, result),
            fits128(*ev, power),
            forall|k: ClientKey|
                #![trigger sound128(result, k)]
                #![trigger decrypted128(result, k)]
                serves(*ev, k) && sound128(*base, k) ==> sound128(result, k) && sound128(power, k) && (
                decrypted128(result, k) * pow(decrypted128(power, k) as int, left as nat)) % wrap128()
                    == pow_mod(decrypted128(*base, k) as int, exp as nat, wrap128()),
        decreases left,
    {
        let ghost before = result;
        let ghost power_before = power;
        if left % 2 == 1 {
            result = mul128(ev, &result, &power);
        }
        power = mul128(ev, &power, &power);
        proof {
            assert forall|k: ClientKey| serves(*ev, k) && sound128(*base, k) implies sound128(
                result,
                k,
            ) && sound128(power, k) && (decrypted128(result, k) * pow(
                decrypted128(power, k) as int,
                (left / 2) as nat,
            )) % wrap128() == pow_mod(decrypted128(*base, k) as int, exp as nat, wrap128()) by {
                lemma_square_multiply_step(
                    decrypted128(before, k) as int,
                    decrypted128(power_before, k) as int,
                    left as nat,
                    wrap128(),
                );
            }
        }
        left = left / 2;
    }
    proof {
        assert forall|k: ClientKey| serves(*ev, k) && sound128(*base, k) implies decrypted128(
            result,
            k,
        ) == pow_mod(decrypted128(*base, k) as int, exp as nat, wrap128()) by {
            assert(sound128(result, k));
            lemma_pow0(decrypted128(power, k) as int);
        }
    }
    result
}

/// `base` to the power `exp` by one multiplication per step; the products wrap
/// at 64 bits. It starts from `base`, so there is no power zero to ask for.
pub fn fhe_exp_64_naive(ev: &Evaluator, base: &Encrypted64, exp: u64) -> (result: Encrypted64)
    requires
        fits64(*ev, *base),
        exp > 0,
    ensures
        fits64(*ev, result),
        forall|k: ClientKey|
            #![trigger sound64(result, k)]
            #![trigger decrypted64(result, k)]
            serves(*ev, k) && sound64(*base, k) ==> sound64(result, k) && decrypted64(result, k)
                == pow_mod(decrypted64(*base, k) as int, exp as nat, wrap64()),
{
    let mut result = clone64(base);
    let mut done: u64 = 1;
    proof {
        assert forall|k: ClientKey| serves(*ev, k) && sound64(*base, k) implies decrypted64(
            result,
            k,
        ) == pow_mod(decrypted64(*base, k) as int, 1, wrap64()) by {
            lemma_pow1(decrypted64(*base, k) as int);
        }
    }
    while done < exp
        invariant
            fits64(*ev, *base),
            fits64(*ev, result),
            1 <= done,
            done <= exp,
            forall|k: ClientKey|
                #![trigger sound64(result, k)]
                #![trigger decrypted64(result, k)]
                serves(*ev, k) && sound64(*base, k) ==> sound64(result, k) && decrypted64(
                    result,
                    k,
                ) == pow_mod(decrypted64(*base, k) as int, done as nat, wrap64()),
        decreases exp - done,
    {
        let next = mul64(ev, &result, base);
        proof {
            assert forall|k: ClientKey| serves(*ev, k) && sound64(*base, k) implies sound64(
                next,
                k,
            ) && decrypted64(next, k) == pow_mod(
                decrypted64(*base, k) as int,
                (done + 1) as nat,
                wrap64(),
            ) by {
                let b: int = decrypted64(*base, k) as int;
                lemma_pow_adds(b, done as nat, 1);
                lemma_pow1(b);
                lemma_mul_mod_noop_general(pow(b, done as nat), b, wrap64());
            }
        }
        result = next;
        done = done + 1;
    }
    result
}

/// `base` to the power `exp` by right-to-left square-and-multiply, driven by
/// the bits of the clear exponent; the products wrap at 64 bits. The
/// accumulator starts as `base`, so the loop works off `exp - 1`.
pub fn fhe_exp_64(ev: &Evaluator, base: &Encrypted64, exp: u64) -> (result: Encrypted64)
    requires
        fits64(*ev, *base),
        exp > 0,
    ensures
        fits64(*ev, result),
        forall|k: ClientKey|
            #![trigger sound64(result, k)]
            #![trigger decrypted64(result, k)]
            serves(*ev, k) && sound64(*base, k) ==> sound64(result, k) && decrypted64(result, k)
                == pow_mod(decrypted64(*base, k) as int, exp as nat, wrap64()),
{
    let mut result = clone64(base);
    let mut left: u64 = exp - 1;
    let mut power = clone64(base);
    proof {
        assert forall|k: ClientKey| serves(*ev, k) && sound64(*base, k) implies (decrypted64(
            result,
            k,
        ) * pow(decrypted64(power, k) as int, left as nat)) % wrap64() == pow_mod(
            decrypted64(*base, k) as int,
            exp as nat,
            wrap64(),
        ) by {
            let b: int = decrypted64(*base, k) as int;
            lemma_pow_adds(b, 1, left as nat);
            lemma_pow1(b);
        }
    }
    while left > 0
        invariant
            fits64(*ev, result),
            fits64(*ev, power),
            forall|k: ClientKey|
                #![trigger sound64(result, k)]
                #![trigger decrypted64(result, k)]
                serves(*ev, k) && sound64(*base, k) ==> sound64(result, k) && sound64(power, k) && (
                decrypted64(result, k) * pow(decrypted64(power, k) as int, left as nat)) % wrap64()
                    == pow_mod(decrypted64(*base, k) as int, exp as nat, wrap64()),
        decreases left,
    {
        let ghost before = result;
        let ghost power_before = power;
        if left % 2 == 1 {
            result = mul64(ev, &result, &power);
        }
        power = mul64(ev, &power, &power);
        proof {
            assert forall|k: ClientKey| serves(*ev, k) && sound64(*base, k) implies sound64(
                result,
                k,
            ) && sound64(power, k) && (decrypted64(result, k) * pow(
                decrypted64(power, k) as int,
                (left / 2) as nat,
            )) % wrap64() == pow_mod(decrypted64(*base, k) as int, exp as nat, wrap64()) by {
                lemma_square_multiply_step(
                    decrypted64(before, k) as int,
                    decrypted64(power_before, k) as int,
                    left as nat,
                    wrap64(),
                );
            }
        }
        left = left / 2;
    }
    proof {
        assert forall|k: ClientKey| serves(*ev, k) && sound64(*base, k) implies decrypted64(
            result,
            k,
        ) == pow_mod(decrypted64(*base, k) as int, exp as nat, wrap64()) by {
            assert(sound64(result, k));
            lemma_pow0(decrypted64(power, k) as int);
        }
    }
    result
}

/// `base` to the power `exp` modulo `modval`, by right-to-left
/// square-and-multiply driven by the bits of the clear exponent. The base is
/// reduced once; the accumulator starts as the reduced base, so the loop works
/// off `exp - 1`. Each product is formed in the 64-bit container and reduced at
/// once, so the result is the power modulo `modval`, for every base and every
/// exponent from one on, wherever the container is wide enough for the
/// modulus.
pub fn fhe_modexp_64(ev: &Evaluator, base: &Encrypted64, exp: u64, modval: u64) -> (result:
    Encrypted64)
    requires
        fits64(*ev, *base),
        exp > 0,
        modval > 0,
    ensures
        fits64(*ev, result),
        forall|k: ClientKey|
            #![trigger sound64(result, k)]
            #![trigger decrypted64(result, k)]
            serves(*ev, k) && sound64(*base, k) ==> sound64(result, k) && (lift_safe(
                modval as int,
                wrap64(),
            ) ==> decrypted64(result, k) == pow_mod(
                decrypted64(*base, k) as int,
                exp as nat,
                modval as int,
            )),
{
    let seed = rem64_scalar(ev, base, modval);
    let mut result = clone64(&seed);
    let mut left: u64 = exp - 1;
    let mut power = seed;
    let ghost m: int = modval as int;
    proof {
        assert forall|k: ClientKey| serves(*ev, k) && sound64(*base, k) implies sound64(result, k)
            && sound64(power, k) && decrypted64(result, k) < modval && decrypted64(power, k)
            < modval && (decrypted64(result, k) * pow(
            decrypted64(power, k) as int,
            left as nat,
        )) % m == pow_mod(decrypted64(*base, k) as int, exp as nat, m) by {
            let b: int = decrypted64(*base, k) as int;
            let c: int = b % m;
            assert(sound64(seed, k));
            lemma_mod_bound(b, m);
            lemma_pow_adds(c, 1, left as nat);
            lemma_pow1(c);
            lemma_pow_mod_noop(b, exp as nat, m);
        }
    }
    while left > 0
        invariant
            fits64(*ev, result),
            fits64(*ev, power),
            modval > 0,
            m == modval,
            forall|k: ClientKey|
                #![trigger sound64(result, k)]
                #![trigger decrypted64(result, k)]
                serves(*ev, k) && sound64(*base, k) ==> sound64(result, k) && sound64(power, k) && (
                lift_safe(m, wrap64()) ==> decrypted64(result, k) < modval && decrypted64(power, k)
                    < modval && (decrypted64(result, k) * pow(
                    decrypted64(power, k) as int,
                    left as nat,
                )) % m == pow_mod(decrypted64(*base, k) as int, exp as nat, m)),
        decreases left,
    {
        let ghost before = result;
        let ghost power_before = power;
        if left % 2 == 1 {
            result = mul_mod_64(ev, &result, &power, modval);
        }
        power = mul_mod_64(ev, &power, &power, modval);
        proof {
            assert forall|k: ClientKey| serves(*ev, k) && sound64(*base, k) implies sound64(
                result,
                k,
            ) && sound64(power, k) && (lift_safe(m, wrap64()) ==> decrypted64(result, k) < modval
                && decrypted64(power, k) < modval && (decrypted64(result, k) * pow(
                decrypted64(power, k) as int,
                (left / 2) as nat,
            )) % m == pow_mod(decrypted64(*base, k) as int, exp as nat, m)) by {
                assert(sound64(before, k));
                assert(sound64(power, k));
                assert(sound64(result, k));
                if lift_safe(m, wrap64()) {
                    let r0: int = decrypted64(before, k) as int;
                    let p0: int = decrypted64(power_before, k) as int;
                    lemma_residue_product_fits(r0, p0, m, wrap64());
                    lemma_residue_product_fits(p0, p0, m, wrap64());
                    lemma_mod_bound(r0 * p0, m);
                    lemma_mod_bound(p0 * p0, m);
                    lemma_square_multiply_step(r0, p0, left as nat, m);
                }
            }
        }
        left = left / 2;
    }
    proof {
        assert forall|k: ClientKey|
            serves(*ev, k) && sound64(*base, k) && lift_safe(m, wrap64()) implies decrypted64(
            result,
            k,
        ) == pow_mod(decrypted64(*base, k) as int, exp as nat, m) by {
            assert(sound64(result, k));
            lemma_pow0(decrypted64(power, k) as int);
            lemma_small_mod(decrypted64(result, k) as nat, m as nat);
        }
    }
    result
}

/// `base` to the power `exp` by one multiplication per step; the products wrap
/// at 32 bits. It starts from `base`, so there is no power zero to ask for.
pub fn fhe_exp_32_naive(ev: &Evaluator, base: &Encrypted32, exp: u32) -> (result: Encrypted32)
    requires
        fits32(*ev, *base),
        exp > 0,
    ensures
        fits32(*ev, result),
        forall|k: ClientKey|
            #![trigger sound32(result, k)]
            #![trigger decrypted32(result, k)]
            serves(*ev, k) && sound32(*base, k) ==> sound32(result, k) && decrypted32(result, k)
                == pow_mod(decrypted32(*base, k) as int, exp as nat, wrap32()),
{
    let mut result = clone32(base);
    let mut done: u32 = 1;
    proof {
        assert forall|k: ClientKey| serves(*ev, k) && sound32(*base, k) implies decrypted32(
            result,
            k,
        ) == pow_mod(decrypted32(*base, k) as int, 1, wrap32()) by {
            lemma_pow1(decrypted32(*base, k) as int);
        }
    }
    while done < exp
        invariant
            fits32(*ev, *base),
            fits32(*ev, result),
            1 <= done,
            done <= exp,
            forall|k: ClientKey|
                #![trigger sound32(result, k)]
                #![trigger decrypted32(result, k)]
                serves(*ev, k) && sound32(*base, k) ==> sound32(result, k) && decrypted32(
                    result,
                    k,
                ) == pow_mod(decrypted32(*base, k) as int, done as nat, wrap32()),
        decreases exp - done,
    {
        let next = mul32(ev, &result, base);
        proof {
            assert forall|k: ClientKey| serves(*ev, k) && sound32(*base, k) implies sound32(
                next,
                k,
            ) && decrypted32(next, k) == pow_mod(
                decrypted32(*base, k) as int,
                (done + 1) as nat,
                wrap32(),
            ) by {
                let b: int = decrypted32(*base, k) as int;
                lemma_pow_adds(b, done as nat, 1);
                lemma_pow1(b);
                lemma_mul_mod_noop_general(pow(b, done as nat), b, wrap32());
            }
        }
        result = next;
        done = done + 1;
    }
    result
}

/// `base` to the power `exp` by right-to-left square-and-multiply, driven by
/// the bits of the clear exponent; the products wrap at 32 bits. The
/// accumulator starts as `base`, so the loop works off `exp - 1`.
pub fn fhe_exp_32(ev: &Evaluator, base: &Encrypted32, exp: u32) -> (result: Encrypted32)
    requires
        fits32(*ev, *base),
        exp > 0,
    ensures
        fits32(*ev, result),
        forall|k: ClientKey|
            #![trigger sound32(result, k)]
            #![trigger decrypted32(result, k)]
            serves(*ev, k) && sound32(*base, k) ==> sound32(result, k) && decrypted32(result, k)
                == pow_mod(decrypted32(*base, k) as int, exp as nat, wrap32()),
{
    let mut result = clone32(base);
    let mut left: u32 = exp - 1;
    let mut power = clone32(base);
    proof {
        assert forall|k: ClientKey| serves(*ev, k) && sound32(*base, k) implies (decrypted32(
            result,
            k,
        ) * pow(decrypted32(power, k) as int, left as nat)) % wrap32() == pow_mod(
            decrypted32(*base, k) as int,
            exp as nat,
            wrap32(),
        ) by {
            let b: int = decrypted32(*base, k) as int;
            lemma_pow_adds(b, 1, left as nat);
            lemma_pow1(b);
        }
    }
    while left > 0
        invariant
            fits32(*ev, result),
            fits32(*ev, power),
            forall|k: ClientKey|
                #![trigger sound32(result, k)]
                #![trigger decrypted32(result, k)]
                serves(*ev, k) && sound32(*base, k) ==> sound32(result, k) && sound32(power, k) && (
                decrypted32(result, k) * pow(decrypted32(power, k) as int, left as nat)) % wrap32()
                    == pow_mod(decrypted32(*base, k) as int, exp as nat, wrap32()),
        decreases left,
    {
        let ghost before = result;
        let ghost power_before = power;
        if left % 2 == 1 {
            result = mul32(ev, &result, &power);
        }
        power = mul32(ev, &power, &power);
        proof {
            assert forall|k: ClientKey| serves(*ev, k) && sound32(*base, k) implies sound32(
                result,
                k,
            ) && sound32(power, k) && (decrypted32(result, k) * pow(
                decrypted32(power, k) as int,
                (left / 2) as nat,
            )) % wrap32() == pow_mod(decrypted32(*base, k) as int, exp as nat, wrap32()) by {
                lemma_square_multiply_step(
                    decrypted32(before, k) as int,
                    decrypted32(power_before, k) as int,
                    left as nat,
                    wrap32(),
                );
            }
        }
        left = left / 2;
    }
    proof {
        assert forall|k: ClientKey| serves(*ev, k) && sound32(*base, k) implies decrypted32(
            result,
            k,
        ) == pow_mod(decrypted32(*base, k) as int, exp as nat, wrap32()) by {
            assert(sound32(result, k));
            lemma_pow0(decrypted32(power, k) as int);
        }
    }
    result
}

/// `base` to the power `exp` by one multiplication per step; the products wrap
/// at 16 bits. It starts from `base`, so there is no power zero to ask for.
pub fn fhe_exp_16_naive(ev: &Evaluator, base: &Encrypted16, exp: u16) -> (result: Encrypted16)
    requires
        fits16(*ev, *base),
        exp > 0,
    ensures
        fits16(*ev, result),
        forall|k: ClientKey|
            #![trigger sound16(result, k)]
            #![trigger decrypted16(result, k)]
            serves(*ev, k) && sound16(*base, k) ==> sound16(result, k) && decrypted16(result, k)
                == pow_mod(decrypted16(*base, k) as int, exp as nat, wrap16()),
{
    let mut result = clone16(base);
    let mut done: u16 = 1;
    proof {
        assert forall|k: ClientKey| serves(*ev, k) && sound16(*base, k) implies decrypted16(
            result,
            k,
        ) == pow_mod(decrypted16(*base, k) as int, 1, wrap16()) by {
            lemma_pow1(decrypted16(*base, k) as int);
        }
    }
    while done < exp
        invariant
            fits16(*ev, *base),
            fits16(*ev, result),
            1 <= done,
            done <= exp,
            forall|k: ClientKey|
                #![trigger sound16(result, k)]
                #![trigger decrypted16(result, k)]
                serves(*ev, k) && sound16(*base, k) ==> sound16(result, k) && decrypted16(
                    result,
                    k,
                ) == pow_mod(decrypted16(*base, k) as int, done as nat, wrap16()),
        decreases exp - done,
    {
        let next = mul16(ev, &result, base);
        proof {
            assert forall|k: ClientKey| serves(*ev, k) && sound16(*base, k) implies sound16(
                next,
                k,
            ) && decrypted16(next, k) == pow_mod(
                decrypted16(*base, k) as int,
                (done + 1) as nat,
                wrap16(),
            ) by {
                let b: int = decrypted16(*base, k) as int;
                lemma_pow_adds(b, done as nat, 1);
                lemma_pow1(b);
                lemma_mul_mod_noop_general(pow(b, done as nat), b, wrap16());
            }
        }
        result = next;
        done = done + 1;
    }
    result
}

/// `base` to the power `exp` by right-to-left square-and-multiply, driven by
/// the bits of the clear exponent; the products wrap at 16 bits. The
/// accumulator starts as `base`, so the loop works off `exp - 1`.
pub fn fhe_exp_16(ev: &Evaluator, base: &Encrypted16, exp: u16) -> (result: Encrypted16)
    requires
        fits16(*ev, *base),
        exp > 0,
    ensures
        fits16(*ev, result),
        forall|k: ClientKey|
            #![trigger sound16(result, k)]
            #![trigger decrypted16(result, k)]
            serves(*ev, k) && sound16(*base, k) ==> sound16(result, k) && decrypted16(result, k)
                == pow_mod(decrypted16(*base, k) as int, exp as nat, wrap16()),
{
    let mut result = clone16(base);
    let mut left: u16 = exp - 1;
    let mut power = clone16(base);
    proof {
        assert forall|k: ClientKey| serves(*ev, k) && sound16(*base, k) implies (decrypted16(
            result,
            k,
        ) * pow(decrypted16(power, k) as int, left as nat)) % wrap16() == pow_mod(
            decrypted16(*base, k) as int,
            exp as nat,
            wrap16(),
        ) by {
            let b: int = decrypted16(*base, k) as int;
            lemma_pow_adds(b, 1, left as nat);
            lemma_pow1(b);
        }
    }
    while left > 0
        invariant
            fits16(*ev, result),
            fits16(*ev, power),
            forall|k: ClientKey|
                #![trigger sound16(result, k)]
                #![trigger decrypted16(result, k)]
                serves(*ev, k) && sound16(*base, k) ==> sound16(result, k) && sound16(power, k) && (
                decrypted16(result, k) * pow(decrypted16(power, k) as int, left as nat)) % wrap16()
                    == pow_mod(decrypted16(*base, k) as int, exp as nat, wrap16()),
        decreases left,
    {
        let ghost before = result;
        let ghost power_before = power;
        if left % 2 == 1 {
            result = mul16(ev, &result, &power);
        }
        power = mul16(ev, &power, &power);
        proof {
            assert forall|k: ClientKey| serves(*ev, k) && sound16(*base, k) implies sound16(
                result,
                k,
            ) && sound16(power, k) && (decrypted16(result, k) * pow(
                decrypted16(power, k) as int,
                (left / 2) as nat,
            )) % wrap16() == pow_mod(decrypted16(*base, k) as int, exp as nat, wrap16()) by {
                lemma_square_multiply_step(
                    decrypted16(before, k) as int,
                    decrypted16(power_before, k) as int,
                    left as nat,
                    wrap16(),
                );
            }
        }
        left = left / 2;
    }
    proof {
        assert forall|k: ClientKey| serves(*ev, k) && sound16(*base, k) implies decrypted16(
            result,
            k,
        ) == pow_mod(decrypted16(*base, k) as int, exp as nat, wrap16()) by {
            assert(sound16(result, k));
            lemma_pow0(decrypted16(power, k) as int);
        }
    }
    result
}

/// `base` to the power `exp` modulo `modval`, by right-to-left
/// square-and-multiply driven by the bits of the clear exponent. The base is
/// reduced once; the accumulator starts as the reduced base, so the loop works
/// off `exp - 1`. Each product is formed in the 16-bit container and reduced at
/// once, so the result is the power modulo `modval`, for every base and every
/// exponent from one on, wherever the container is wide enough for the
/// modulus.
pub fn fhe_modexp_16(ev: &Evaluator, base: &Encrypted16, exp: u16, modval: u16) -> (result:
    Encrypted16)
    requires
        fits16(*ev, *base),
        exp > 0,
        modval > 0,
    ensures
        fits16(*ev, result),
        forall|k: ClientKey|
            #![trigger sound16(result, k)]
            #![trigger decrypted16(result, k)]
            serves(*ev, k) && sound16(*base, k) ==> sound16(result, k) && (lift_safe(
                modval as int,
                wrap16(),
            ) ==> decrypted16(result, k) == pow_mod(
                decrypted16(*base, k) as int,
                exp as nat,
                modval as int,
            )),
{
    let seed = rem16_scalar(ev, base, modval);
    let mut result = clone16(&seed);
    let mut left: u16 = exp - 1;
    let mut power = seed;
    let ghost m: int = modval as int;
    proof {
        assert forall|k: ClientKey| serves(*ev, k) && sound16(*base, k) implies sound16(result, k)
            && sound16(power, k) && decrypted16(result, k) < modval && decrypted16(power, k)
            < modval && (decrypted16(result, k) * pow(
            decrypted16(power, k) as int,
            left as nat,
        )) % m == pow_mod(decrypted16(*base, k) as int, exp as nat, m) by {
            let b: int = decrypted16(*base, k) as int;
            let c: int = b % m;
            assert(sound16(seed, k));
            lemma_mod_bound(b, m);
            lemma_pow_adds(c, 1, left as nat);
            lemma_pow1(c);
            lemma_pow_mod_noop(b, exp as nat, m);
        }
    }
    while left > 0
        invariant
            fits16(*ev, result),
            fits16(*ev, power),
            modval > 0,
            m == modval,
            forall|k: ClientKey|
                #![trigger sound16(result, k)]
                #![trigger decrypted16(result, k)]
                serves(*ev, k) && sound16(*base, k) ==> sound16(result, k) && sound16(power, k) && (
                lift_safe(m, wrap16()) ==> decrypted16(result, k) < modval && decrypted16(power, k)
                    < modval && (decrypted16(result, k) * pow(
                    decrypted16(power, k) as int,
                    left as nat,
                )) % m == pow_mod(decrypted16(*base, k) as int, exp as nat, m)),
        decreases left,
    {
        let ghost before = result;
        let ghost power_before = power;
        if left % 2 == 1 {
            result = mul_mod_16(ev, &result, &power, modval);
        }
        power = mul_mod_16(ev, &power, &power, modval);
        proof {
            assert forall|k: ClientKey| serves(*ev, k) && sound16(*base, k) implies sound16(
                result,
                k,
            ) && sound16(power, k) && (lift_safe(m, wrap16()) ==> decrypted16(result, k) < modval
                && decrypted16(power, k) < modval && (decrypted16(result, k) * pow(
                decrypted16(power, k) as int,
                (left / 2) as nat,
            )) % m == pow_mod(decrypted16(*base, k) as int, exp as nat, m)) by {
                assert(sound16(before, k));
                assert(sound16(power, k));
                assert(sound16(result, k));
                if lift_safe(m, wrap16()) {
                    let r0: int = decrypted16(before, k) as int;
                    let p0: int = decrypted16(power_before, k) as int;
                    lemma_residue_product_fits(r0, p0, m, wrap16());
                    lemma_residue_product_fits(p0, p0, m, wrap16());
                    lemma_mod_bound(r0 * p0, m);
                    lemma_mod_bound(p0 * p0, m);
                    lemma_square_multiply_step(r0, p0, left as nat, m);
                }
            }
        }
        left = left / 2;
    }
    proof {
        assert forall|k: ClientKey|
            serves(*ev, k) && sound16(*base, k) && lift_safe(m, wrap16()) implies decrypted16(
            result,
            k,
        ) == pow_mod(decrypted16(*base, k) as int, exp as nat, m) by {
            assert(sound16(result, k));
            lemma_pow0(decrypted16(power, k) as int);
            lemma_small_mod(decrypted16(result, k) as nat, m as nat);
        }
    }
    result
}

/// `base` to an encrypted power modulo `modval`. Nothing that is done depends
/// on the exponent: the loop runs once for each of the 64 bits, forms the
/// product every time and lets the engine select, under encryption, whether it
/// is kept. The base is reduced once; the exponent is decremented first,
/// because the accumulator starts as the reduced base. The result is the power
/// modulo `modval` for every exponent from one on. An exponent of zero is no
/// exponent to raise to: no engine value stands for the power zero here, and
/// nothing is said of what comes back for it.
pub fn fhe2_modexp_64(
    ev: &Evaluator,
    base_enc: &Encrypted64,
    exp_enc: &Encrypted64,
    modval: u64,
) -> (result: Encrypted64)
    requires
        fits64(*ev, *base_enc),
        fits64(*ev, *exp_enc),
        modval > 0,
    ensures
        fits64(*ev, result),
        forall|k: ClientKey|
            #![trigger sound64(result, k)]
            #![trigger decrypted64(result, k)]
            serves(*ev, k) && sound64(*base_enc, k) && sound64(*exp_enc, k) ==> sound64(result, k)
                && (lift_safe(modval as int, wrap64()) && decrypted64(*exp_enc, k) >= 1
                ==> decrypted64(result, k) == pow_mod(
                decrypted64(*base_enc, k) as int,
                decrypted64(*exp_enc, k) as nat,
                modval as int,
            )),
{
    let seed = rem64_scalar(ev, base_enc, modval);
    let mut result = clone64(&seed);
    let mut power = seed;
    let mut left = sub64_scalar(ev, exp_enc, 1);
    let ghost m: int = modval as int;
    let mut round: u64 = 0;
    proof {
        lemma2_to64();
        assert forall|k: ClientKey|
            serves(*ev, k) && sound64(*base_enc, k) && sound64(*exp_enc, k) implies sound64(
            result,
            k,
        ) && sound64(power, k) && sound64(left, k) && decrypted64(result, k) < modval
            && decrypted64(power, k) < modval && (decrypted64(*exp_enc, k) >= 1 ==> (decrypted64(
            result,
            k,
        ) * pow(decrypted64(power, k) as int, decrypted64(left, k) as nat)) % m == pow_mod(
            decrypted64(*base_enc, k) as int,
            decrypted64(*exp_enc, k) as nat,
            m,
        )) by {
            let b: int = decrypted64(*base_enc, k) as int;
            let c: int = b % m;
            let e: int = decrypted64(*exp_enc, k) as int;
            assert(sound64(seed, k));
            assert(sound64(left, k));
            lemma_mod_bound(b, m);
            if e >= 1 {
                lemma_small_mod((e - 1) as nat, wrap64() as nat);
                lemma_pow_adds(c, 1, (e - 1) as nat);
                lemma_pow1(c);
                lemma_pow_mod_noop(b, e as nat, m);
            }
        }
    }
    while round < 64
        invariant
            fits64(*ev, result),
            fits64(*ev, power),
            fits64(*ev, left),
            round <= 64,
            modval > 0,
            m == modval,
            forall|k: ClientKey|
                #![trigger sound64(result, k)]
                #![trigger decrypted64(result, k)]
                serves(*ev, k) && sound64(*base_enc, k) && sound64(*exp_enc, k) ==> sound64(
                    result,
                    k,
                ) && sound64(power, k) && sound64(left, k) && decrypted64(left, k) < pow2(
                    (64 - round) as nat,
                ) && (lift_safe(m, wrap64()) ==> decrypted64(result, k) < modval && decrypted64(
                    power,
                    k,
                ) < modval && (decrypted64(*exp_enc, k) >= 1 ==> (decrypted64(result, k) * pow(
                    decrypted64(power, k) as int,
                    decrypted64(left, k) as nat,
                )) % m == pow_mod(
                    decrypted64(*base_enc, k) as int,
                    decrypted64(*exp_enc, k) as nat,
                    m,
                ))),
        decreases 64 - round,
    {
        let ghost before = result;
        let ghost power_before = power;
        let ghost left_before = left;
        let low_bit = and64_scalar(ev, &left, 1);
        let is_odd = eq64_scalar(ev, &low_bit, 1);
        let candidate = mul_mod_64(ev, &result, &power, modval);
        result = select64(ev, &is_odd, &candidate, &result);
        power = mul_mod_64(ev, &power, &power, modval);
        shr64_assign(ev, &mut left, 1);
        proof {
            assert forall|k: ClientKey|
                serves(*ev, k) && sound64(*base_enc, k) && sound64(*exp_enc, k) implies sound64(
                result,
                k,
            ) && sound64(power, k) && sound64(left, k) && decrypted64(left, k) < pow2(
                (64 - (round + 1)) as nat,
            ) && (lift_safe(m, wrap64()) ==> decrypted64(result, k) < modval && decrypted64(
                power,
                k,
            ) < modval && (decrypted64(*exp_enc, k) >= 1 ==> (decrypted64(result, k) * pow(
                decrypted64(power, k) as int,
                decrypted64(left, k) as nat,
            )) % m == pow_mod(
                decrypted64(*base_enc, k) as int,
                decrypted64(*exp_enc, k) as nat,
                m,
            ))) by {
                assert(sound64(before, k));
                assert(sound64(low_bit, k));
                assert(sound_bool(is_odd, k));
                assert(sound64(candidate, k));
                assert(sound64(result, k));
                assert(sound64(power, k));
                assert(sound64(left, k));
                let x: u64 = decrypted64(left_before, k);
                assert((x & 1 == 1) == (x % 2 == 1)) by (bit_vector);
                assert(x >> 1 == x / 2) by (bit_vector);
                lemma_pow2_unfold((64 - round) as nat);
                if lift_safe(m, wrap64()) {
                    let r0: int = decrypted64(before, k) as int;
                    let p0: int = decrypted64(power_before, k) as int;
                    lemma_residue_product_fits(r0, p0, m, wrap64());
                    lemma_residue_product_fits(p0, p0, m, wrap64());
                    lemma_mod_bound(r0 * p0, m);
                    lemma_mod_bound(p0 * p0, m);
                    if x > 0 {
                        lemma_square_multiply_step(r0, p0, x as nat, m);
                    } else {
                        lemma_pow0(p0);
                        lemma_pow0(decrypted64(power, k) as int);
                    }
                }
            }
        }
        round = round + 1;
    }
    proof {
        assert forall|k: ClientKey|
            serves(*ev, k) && sound64(*base_enc, k) && sound64(*exp_enc, k) && lift_safe(
                m,
                wrap64(),
            ) && decrypted64(*exp_enc, k) >= 1 implies decrypted64(result, k) == pow_mod(
            decrypted64(*base_enc, k) as int,
            decrypted64(*exp_enc, k) as nat,
            m,
        ) by {
            assert(sound64(result, k));
            assert(pow2(0) == 1) by {
                lemma2_to64();
            }
            lemma_pow0(decrypted64(power, k) as int);
            lemma_small_mod(decrypted64(result, k) as nat, m as nat);
        }
    }
    result
}

/// `base` to an encrypted power modulo `modval`. Nothing that is done depends
/// on the exponent: the loop runs once for each of the 16 bits, forms the
/// product every time and lets the engine select, under encryption, whether it
/// is kept. The base is reduced once; the exponent is decremented first,
/// because the accumulator starts as the reduced base. The result is the power
/// modulo `modval` for every exponent from one on. An exponent of zero is no
/// exponent to raise to: no engine value stands for the power zero here, and
/// nothing is said of what comes back for it.
pub fn fhe2_modexp_16(
    ev: &Evaluator,
    base_enc: &Encrypted16,
    exp_enc: &Encrypted16,
    modval: u16,
) -> (result: Encrypted16)
    requires
        fits16(*ev, *base_enc),
        fits16(*ev, *exp_enc),
        modval > 0,
    ensures
        fits16(*ev, result),
        forall|k: ClientKey|
            #![trigger sound16(result, k)]
            #![trigger decrypted16(result, k)]
            serves(*ev, k) && sound16(*base_enc, k) && sound16(*exp_enc, k) ==> sound16(result, k)
                && (lift_safe(modval as int, wrap16()) && decrypted16(*exp_enc, k) >= 1
                ==> decrypted16(result, k) == pow_mod(
                decrypted16(*base_enc, k) as int,
                decrypted16(*exp_enc, k) as nat,
                modval as int,
            )),
{
    let seed = rem16_scalar(ev, base_enc, modval);
    let mut result = clone16(&seed);
    let mut power = seed;
    let mut left = sub16_scalar(ev, exp_enc, 1);
    let ghost m: int = modval as int;
    let mut round: u16 = 0;
    proof {
        lemma2_to64();
        assert forall|k: ClientKey|
            serves(*ev, k) && sound16(*base_enc, k) && sound16(*exp_enc, k) implies sound16(
            result,
            k,
        ) && sound16(power, k) && sound16(left, k) && decrypted16(result, k) < modval
            && decrypted16(power, k) < modval && (decrypted16(*exp_enc, k) >= 1 ==> (decrypted16(
            result,
            k,
        ) * pow(decrypted16(power, k) as int, decrypted16(left, k) as nat)) % m == pow_mod(
            decrypted16(*base_enc, k) as int,
            decrypted16(*exp_enc, k) as nat,
            m,
        )) by {
            let b: int = decrypted16(*base_enc, k) as int;
            let c: int = b % m;
            let e: int = decrypted16(*exp_enc, k) as int;
            assert(sound16(seed, k));
            assert(sound16(left, k));
            lemma_mod_bound(b, m);
            if e >= 1 {
                lemma_small_mod((e - 1) as nat, wrap16() as nat);
                lemma_pow_adds(c, 1, (e - 1) as nat);
                lemma_pow1(c);
                lemma_pow_mod_noop(b, e as nat, m);
            }
        }
    }
    while round < 16
        invariant
            fits16(*ev, result),
            fits16(*ev, power),
            fits16(*ev, left),
            round <= 16,
            modval > 0,
            m == modval,
            forall|k: ClientKey|
                #![trigger sound16(result, k)]
                #![trigger decrypted16(result, k)]
                serves(*ev, k) && sound16(*base_enc, k) && sound16(*exp_enc, k) ==> sound16(
                    result,
                    k,
                ) && sound16(power, k) && sound16(left, k) && decrypted16(left, k) < pow2(
                    (16 - round) as nat,
                ) && (lift_safe(m, wrap16()) ==> decrypted16(result, k) < modval && decrypted16(
                    power,
                    k,
                ) < modval && (decrypted16(*exp_enc, k) >= 1 ==> (decrypted16(result, k) * pow(
                    decrypted16(power, k) as int,
                    decrypted16(left, k) as nat,
                )) % m == pow_mod(
                    decrypted16(*base_enc, k) as int,
                    decrypted16(*exp_enc, k) as nat,
                    m,
                ))),
        decreases 16 - round,
    {
        let ghost before = result;
        let ghost power_before = power;
        let ghost left_before = left;
        let low_bit = and16_scalar(ev, &left, 1);
        let is_odd = eq16_scalar(ev, &low_bit, 1);
        let candidate = mul_mod_16(ev, &result, &power, modval);
        result = select16(ev, &is_odd, &candidate, &result);
        power = mul_mod_16(ev, &power, &power, modval);
        shr16_assign(ev, &mut left, 1);
        proof {
            assert forall|k: ClientKey|
                serves(*ev, k) && sound16(*base_enc, k) && sound16(*exp_enc, k) implies sound16(
                result,
                k,
            ) && sound16(power, k) && sound16(left, k) && decrypted16(left, k) < pow2(
                (16 - (round + 1)) as nat,
            ) && (lift_safe(m, wrap16()) ==> decrypted16(result, k) < modval && decrypted16(
                power,
                k,
            ) < modval && (decrypted16(*exp_enc, k) >= 1 ==> (decrypted16(result, k) * pow(
                decrypted16(power, k) as int,
                decrypted16(left, k) as nat,
            )) % m == pow_mod(
                decrypted16(*base_enc, k) as int,
                decrypted16(*exp_enc, k) as nat,
                m,
            ))) by {
                assert(sound16(before, k));
                assert(sound16(low_bit, k));
                assert(sound_bool(is_odd, k));
                assert(sound16(candidate, k));
                assert(sound16(result, k));
                assert(sound16(power, k));
                assert(sound16(left, k));
                let x: u16 = decrypted16(left_before, k);
                assert((x & 1 == 1) == (x % 2 == 1)) by (bit_vector);
                assert(x >> 1 == x / 2) by (bit_vector);
                lemma_pow2_unfold((16 - round) as nat);
                if lift_safe(m, wrap16()) {
                    let r0: int = decrypted16(before, k) as int;
                    let p0: int = decrypted16(power_before, k) as int;
                    lemma_residue_product_fits(r0, p0, m, wrap16());
                    lemma_residue_product_fits(p0, p0, m, wrap16());
                    lemma_mod_bound(r0 * p0, m);
                    lemma_mod_bound(p0 * p0, m);
                    if x > 0 {
                        lemma_square_multiply_step(r0, p0, x as nat, m);
                    } else {
                        lemma_pow0(p0);
                        lemma_pow0(decrypted16(power, k) as int);
                    }
                }
            }
        }
        round = round + 1;
    }
    proof {
        assert forall|k: ClientKey|
            serves(*ev, k) && sound16(*base_enc, k) && sound16(*exp_enc, k) && lift_safe(
                m,
                wrap16(),
            ) && decrypted16(*exp_enc, k) >= 1 implies decrypted16(result, k) == pow_mod(
            decrypted16(*base_enc, k) as int,
            decrypted16(*exp_enc, k) as nat,
            m,
        ) by {
            assert(sound16(result, k));
            assert(pow2(0) == 1) by {
                lemma2_to64();
            }
            lemma_pow0(decrypted16(power, k) as int);
            lemma_small_mod(decrypted16(result, k) as nat, m as nat);
        }
    }
    result
}

} // verus!
