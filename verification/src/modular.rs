//! Modular arithmetic over mathematical integers: the statements that the
//! fixed-width code is proved against.

use vstd::arithmetic::div_mod::*;
use vstd::arithmetic::mul::*;
use vstd::arithmetic::power::*;
use vstd::prelude::*;

verus! {

/// `base` to the power `exp`, reduced modulo `modulus`.
pub open spec fn pow_mod(base: int, exp: nat, modulus: int) -> int {
    pow(base, exp) % modulus
}

/// A container that wraps at `wrap` is wide enough for `modulus`: the product
/// of two residues, and so also their sum, stays below `wrap`.
pub open spec fn lift_safe(modulus: int, wrap: int) -> bool {
    0 < modulus && (modulus - 1) * (modulus - 1) < wrap
}

/// What a container wrapping at `wrap` holds after a multiplication followed by
/// a reduction modulo `modulus`.
pub open spec fn mul_mod_wrapped(x: int, y: int, modulus: int, wrap: int) -> int {
    ((x * y) % wrap) % modulus
}

/// What a container wrapping at `wrap` holds after an addition followed by a
/// reduction modulo `modulus`.
pub open spec fn add_mod_wrapped(x: int, y: int, modulus: int, wrap: int) -> int {
    ((x + y) % wrap) % modulus
}

/// What a container wrapping at `wrap` holds after `modulus` was added to `x`,
/// `y` was taken away, and the difference was reduced modulo `modulus`.
pub open spec fn sub_mod_wrapped(x: int, y: int, modulus: int, wrap: int) -> int {
    ((((x + modulus) % wrap) - y) % wrap) % modulus
}

/// Where the lifted number fits the container and is not below what is taken
/// away, the difference is reduced as it stands.
pub proof fn lemma_lifted_difference_fits(x: int, y: int, modulus: int, wrap: int)
    requires
        0 <= y <= x + modulus < wrap,
        0 <= x,
        0 < modulus,
    ensures
        sub_mod_wrapped(x, y, modulus, wrap) == (x + modulus - y) % modulus,
{
    lemma_small_mod((x + modulus) as nat, wrap as nat);
    lemma_small_mod((x + modulus - y) as nat, wrap as nat);
}

/// The product of two residues fits the wide container.
pub proof fn lemma_residue_product_fits(x: int, y: int, modulus: int, wrap: int)
    requires
        lift_safe(modulus, wrap),
        0 <= x < modulus,
        0 <= y < modulus,
    ensures
        0 <= x * y < wrap,
        (x * y) % wrap == x * y,
        mul_mod_wrapped(x, y, modulus, wrap) == (x * y) % modulus,
{
    assert(0 <= x * y <= (modulus - 1) * (modulus - 1)) by (nonlinear_arith)
        requires
            0 <= x <= modulus - 1,
            0 <= y <= modulus - 1,
    ;
    lemma_small_mod((x * y) as nat, wrap as nat);
}

/// The sum of two residues fits the wide container.
pub proof fn lemma_residue_sum_fits(x: int, y: int, modulus: int, wrap: int)
    requires
        lift_safe(modulus, wrap),
        4 <= wrap,
        0 <= x < modulus,
        0 <= y < modulus,
    ensures
        0 <= x + y < wrap,
        (x + y) % wrap == x + y,
        add_mod_wrapped(x, y, modulus, wrap) == (x + y) % modulus,
{
    if modulus >= 3 {
        assert(2 * (modulus - 1) <= (modulus - 1) * (modulus - 1)) by (nonlinear_arith)
            requires
                3 <= modulus,
        ;
    }
    lemma_small_mod((x + y) as nat, wrap as nat);
}

/// Squaring the running power halves the exponent that is left.
pub proof fn lemma_pow_square_half(a: int, x: nat)
    ensures
        x % 2 == 0 ==> pow(a, x) == pow(a * a, x / 2),
        x % 2 == 1 ==> pow(a, x) == a * pow(a * a, x / 2),
{
    let h: nat = x / 2;
    lemma_square_is_pow2(a);
    lemma_pow_multiplies(a, 2, h);
    if x % 2 == 1 {
        lemma_pow_adds(a, 1, 2 * h);
        lemma_pow1(a);
    }
}

/// One round of right-to-left square-and-multiply keeps
/// `result * power^left` unchanged modulo `m`.
pub proof fn lemma_square_multiply_step(result: int, power: int, left: nat, m: int)
    requires
        0 < m,
        0 < left,
    ensures
        left % 2 == 1 ==> (((result * power) % m) * pow((power * power) % m, left / 2)) % m == (
        result * pow(power, left)) % m,
        left % 2 == 0 ==> (result * pow((power * power) % m, left / 2)) % m == (result * pow(
            power,
            left,
        )) % m,
{
    let h: nat = left / 2;
    let sq: int = power * power;
    lemma_pow_square_half(power, left);
    lemma_pow_mod_noop(sq, h, m);
    // pow(sq % m, h) and pow(sq, h) agree modulo m
    if left % 2 == 1 {
        lemma_mul_mod_noop_general(result * power, pow(sq % m, h), m);
        assert(((result * power) * (pow(sq, h) % m)) % m == ((result * power) * pow(sq, h)) % m)
            by {
            lemma_mul_mod_noop_general(result * power, pow(sq, h), m);
        }
        assert((result * power) * pow(sq, h) == result * (power * pow(sq, h))) by {
            lemma_mul_is_associative(result, power, pow(sq, h));
        }
    } else {
        lemma_mul_mod_noop_general(result, pow(sq % m, h), m);
        lemma_mul_mod_noop_general(result, pow(sq, h), m);
    }
}

/// The power to a sum of exponents from the powers to each, modulo `m`.
pub proof fn lemma_pow_mod_adds(g: int, a: nat, b: nat, m: int)
    requires
        0 < m,
    ensures
        pow_mod(g, a + b, m) == (pow_mod(g, a, m) * pow_mod(g, b, m)) % m,
{
    lemma_pow_adds(g, a, b);
    lemma_mul_mod_noop_general(pow(g, a), pow(g, b), m);
}

} // verus!
