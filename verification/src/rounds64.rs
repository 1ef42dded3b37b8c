//! The steps of a round of the permutation on a state of encrypted 64-bit
//! integers, built from the modular arithmetic in the 64-bit container. The
//! proofs show that nothing wraps as long as the container is wide enough for
//! the prime and the state holds residues.

use crate::enc64::{decrypted64, fits64, sound64, wrap64, Encrypted64};
use crate::engine::{serves, Evaluator};
use crate::modarith64::{add_mod_64, add_mod_64_scalar, mul_mod_64_scalar};
use crate::modular::{
    lemma_residue_product_fits, lemma_residue_sum_fits, lift_safe,
};
use crate::poseidon_spec::{
    add_constants, after_rounds, dot, full_round, mix, partial_round, residue_matrix, residues,
    sbox_all, sbox_first, Profile,
};
use crate::utils::fhe_modexp_64;
use tfhe::ClientKey;
use vstd::arithmetic::div_mod::{lemma_add_mod_noop, lemma_mod_bound};
use vstd::prelude::*;

verus! {

/// The numbers of a sequence of `u64` as integers.
pub open spec fn ints64(s: Seq<u64>) -> Seq<int> {
    Seq::new(s.len(), |i: int| s[i] as int)
}

/// The rows of a four-by-four matrix of `u64` as sequences of integers.
pub open spec fn matrix64(m: [[u64; 4]; 4]) -> Seq<Seq<int>> {
    Seq::new(4, |i: int| ints64(m@[i]@))
}

/// Under the client key `k` every element of the state is sound and holds a
/// residue modulo `p`.
pub open spec fn residue_state64(v: Seq<Encrypted64>, k: ClientKey, p: int) -> bool {
    forall|i: int| 0 <= i < v.len() ==> sound64(#[trigger] v[i], k) && decrypted64(v[i], k) < p
}

/// The handle can compute on every element of the state.
pub open spec fn fits_all64(ev: Evaluator, v: Seq<Encrypted64>) -> bool {
    forall|i: int| 0 <= i < v.len() ==> fits64(ev, #[trigger] v[i])
}

/// The values that the state holds under the client key `k`.
pub open spec fn plain64(v: Seq<Encrypted64>, k: ClientKey) -> Seq<int> {
    Seq::new(v.len(), |i: int| decrypted64(v[i], k) as int)
}

/// The state multiplied by the matrix modulo `prime`. No encrypted zero can be
/// made without a key, so each row starts from its first product.
pub fn apply_mds_matrix(
    ev: &Evaluator,
    inputs: Vec<Encrypted64>,
    mds_matrix: &[[u64; 4]; 4],
    prime: u64,
) -> (outputs: Vec<Encrypted64>)
    requires
        fits_all64(*ev, inputs@),
        inputs.len() <= 4,
        lift_safe(prime as int, wrap64()),
        residue_matrix(matrix64(*mds_matrix), 4, prime as int),
    ensures
        fits_all64(*ev, outputs@),
        outputs.len() == inputs.len(),
        forall|k: ClientKey|
            #![trigger residue_state64(outputs@, k, prime as int)]
            #![trigger plain64(outputs@, k)]
            serves(*ev, k) && residue_state64(inputs@, k, prime as int) ==> residue_state64(
                outputs@,
                k,
                prime as int,
            ) && plain64(outputs@, k) == mix(
                plain64(inputs@, k),
                matrix64(*mds_matrix),
                prime as int,
            ),
{
    let n: usize = inputs.len();
    let ghost p: int = prime as int;
    let ghost matrix: Seq<Seq<int>> = matrix64(*mds_matrix);
    let mut outputs: Vec<Encrypted64> = Vec::new();
    let mut i: usize = 0;
    while i < n
        invariant
            fits_all64(*ev, inputs@),
            fits_all64(*ev, outputs@),
            i <= n,
            n == inputs.len(),
            n <= 4,
            p == prime,
            lift_safe(p, wrap64()),
            matrix == matrix64(*mds_matrix),
            residue_matrix(matrix, 4, p),
            outputs.len() == i,
            forall|k: ClientKey|
                #![trigger residue_state64(outputs@, k, p)]
                serves(*ev, k) && residue_state64(inputs@, k, p) ==> residue_state64(
                    outputs@,
                    k,
                    p,
                ) && forall|r: int|
                    0 <= r < i ==> decrypted64(#[trigger] outputs[r], k) == dot(
                        plain64(inputs@, k),
                        matrix[r],
                        n as nat,
                    ) % p,
        decreases n - i,
    {
        let ghost row: Seq<int> = matrix[i as int];
        let mut output = mul_mod_64_scalar(ev, &inputs[0], mds_matrix[i][0], prime);
        proof {
            assert forall|k: ClientKey|
                serves(*ev, k) && residue_state64(inputs@, k, p) implies sound64(output, k)
                && decrypted64(output, k) == dot(plain64(inputs@, k), row, 1) % p by {
                let x: int = decrypted64(inputs[0], k) as int;
                lemma_residue_product_fits(x, row[0], p, wrap64());
                assert(dot(plain64(inputs@, k), row, 1) == x * row[0]) by {
                    reveal_with_fuel(dot, 2);
                }
            }
        }
        let mut j: usize = 1;
        while j < n
            invariant
                fits_all64(*ev, inputs@),
                fits64(*ev, output),
                1 <= j <= n,
                i < n,
                n == inputs.len(),
                n <= 4,
                p == prime,
                lift_safe(p, wrap64()),
                row == ints64(mds_matrix@[i as int]@),
                residues(row, p),
                row.len() == 4,
                forall|k: ClientKey|
                    #![trigger sound64(output, k)]
                    #![trigger decrypted64(output, k)]
                    serves(*ev, k) && residue_state64(inputs@, k, p) ==> sound64(output, k)
                        && decrypted64(output, k) == dot(plain64(inputs@, k), row, j as nat) % p,
            decreases n - j,
        {
            let mult = mul_mod_64_scalar(ev, &inputs[j], mds_matrix[i][j], prime);
            let next = add_mod_64(ev, &output, &mult, prime);
            proof {
                assert forall|k: ClientKey|
                    serves(*ev, k) && residue_state64(inputs@, k, p) implies sound64(next, k)
                    && decrypted64(next, k) == dot(plain64(inputs@, k), row, (j + 1) as nat)
                    % p by {
                    let x: int = decrypted64(inputs[j as int], k) as int;
                    let acc: int = dot(plain64(inputs@, k), row, j as nat);
                    lemma_residue_product_fits(x, row[j as int], p, wrap64());
                    lemma_residue_sum_fits(acc % p, (x * row[j as int]) % p, p, wrap64());
                    lemma_add_mod_noop(acc, x * row[j as int], p);
                }
            }
            output = next;
            j = j + 1;
        }
        let ghost earlier = outputs@;
        outputs.push(output);
        proof {
            assert forall|k: ClientKey|
                serves(*ev, k) && residue_state64(inputs@, k, p) implies residue_state64(
                outputs@,
                k,
                p,
            ) && forall|r: int|
                0 <= r < i + 1 ==> decrypted64(#[trigger] outputs[r], k) == dot(
                    plain64(inputs@, k),
                    matrix[r],
                    n as nat,
                ) % p by {
                assert(residue_state64(earlier, k, p));
                assert forall|r: int| 0 <= r < outputs.len() implies sound64(
                    #[trigger] outputs[r],
                    k,
                ) && decrypted64(outputs[r], k) < p by {
                }
                assert forall|r: int| 0 <= r < i + 1 implies decrypted64(
                    #[trigger] outputs[r],
                    k,
                ) == dot(plain64(inputs@, k), matrix[r], n as nat) % p by {
                }
            }
        }
        i = i + 1;
    }
    proof {
        assert forall|k: ClientKey|
            serves(*ev, k) && residue_state64(inputs@, k, p) implies plain64(outputs@, k) == mix(
            plain64(inputs@, k),
            matrix,
            p,
        ) by {
            assert(residue_state64(outputs@, k, p));
        }
    }
    outputs
}

/// The state after the constants from position `at` on were added modulo
/// `prime`.
pub(crate) fn add_constants_64(
    ev: &Evaluator,
    state: &Vec<Encrypted64>,
    constants: &Vec<u64>,
    at: usize,
    prime: u64,
) -> (next: Vec<Encrypted64>)
    requires
        fits_all64(*ev, state@),
        at + state.len() <= constants.len(),
        lift_safe(prime as int, wrap64()),
        residues(ints64(constants@), prime as int),
    ensures
        fits_all64(*ev, next@),
        next.len() == state.len(),
        forall|k: ClientKey|
            #![trigger residue_state64(next@, k, prime as int)]
            #![trigger plain64(next@, k)]
            serves(*ev, k) && residue_state64(state@, k, prime as int) ==> residue_state64(
                next@,
                k,
                prime as int,
            ) && plain64(next@, k) == add_constants(
                plain64(state@, k),
                ints64(constants@),
                at as int,
                prime as int,
            ),
{
    let ghost p: int = prime as int;
    let mut next: Vec<Encrypted64> = Vec::new();
    let mut j: usize = 0;
    while j < state.len()
        invariant
            fits_all64(*ev, state@),
            fits_all64(*ev, next@),
            j <= state.len(),
            at + state.len() <= constants.len(),
            p == prime,
            lift_safe(p, wrap64()),
            residues(ints64(constants@), p),
            next.len() == j,
            forall|k: ClientKey|
                #![trigger residue_state64(next@, k, p)]
                serves(*ev, k) && residue_state64(state@, k, p) ==> residue_state64(next@, k, p)
                    && forall|i: int|
                    0 <= i < j ==> decrypted64(#[trigger] next[i], k) == (decrypted64(state[i], k)
                        + constants[at + i]) % p,
        decreases state.len() - j,
    {
        let reduced = add_mod_64_scalar(ev, &state[j], constants[at + j], prime);
        let ghost earlier = next@;
        next.push(reduced);
        proof {
            assert forall|k: ClientKey|
                serves(*ev, k) && residue_state64(state@, k, p) implies residue_state64(
                next@,
                k,
                p,
            ) && forall|i: int|
                0 <= i < j + 1 ==> decrypted64(#[trigger] next[i], k) == (decrypted64(state[i], k)
                    + constants[at + i]) % p by {
                let x: int = decrypted64(state[j as int], k) as int;
                let c: int = constants[at + j] as int;
                assert(residue_state64(earlier, k, p));
                assert(0 <= ints64(constants@)[at + j] < p);
                lemma_residue_sum_fits(x, c, p, wrap64());
                assert forall|i: int| 0 <= i < next.len() implies sound64(#[trigger] next[i], k)
                    && decrypted64(next[i], k) < p by {
                }
                assert forall|i: int| 0 <= i < j + 1 implies decrypted64(#[trigger] next[i], k)
                    == (decrypted64(state[i], k) + constants[at + i]) % p by {
                }
            }
        }
        j = j + 1;
    }
    proof {
        assert forall|k: ClientKey|
            serves(*ev, k) && residue_state64(state@, k, p) implies plain64(next@, k)
            == add_constants(plain64(state@, k), ints64(constants@), at as int, p) by {
            assert(residue_state64(next@, k, p));
            assert(plain64(next@, k) =~= add_constants(
                plain64(state@, k),
                ints64(constants@),
                at as int,
                p,
            ));
        }
    }
    next
}

/// The S-box on every element of the state, by the exponentiation with a clear
/// exponent.
pub(crate) fn sbox_all_64(ev: &Evaluator, state: &Vec<Encrypted64>, alpha: u64, prime: u64) -> (next:
    Vec<Encrypted64>)
    requires
        fits_all64(*ev, state@),
        alpha > 0,
        lift_safe(prime as int, wrap64()),
    ensures
        fits_all64(*ev, next@),
        next.len() == state.len(),
        forall|k: ClientKey|
            #![trigger residue_state64(next@, k, prime as int)]
            #![trigger plain64(next@, k)]
            serves(*ev, k) && residue_state64(state@, k, prime as int) ==> residue_state64(
                next@,
                k,
                prime as int,
            ) && plain64(next@, k) == sbox_all(plain64(state@, k), alpha as nat, prime as int),
{
    let ghost p: int = prime as int;
    let mut next: Vec<Encrypted64> = Vec::new();
    let mut j: usize = 0;
    while j < state.len()
        invariant
            fits_all64(*ev, state@),
            fits_all64(*ev, next@),
            j <= state.len(),
            alpha > 0,
            p == prime,
            lift_safe(p, wrap64()),
            next.len() == j,
            forall|k: ClientKey|
                #![trigger residue_state64(next@, k, p)]
                serves(*ev, k) && residue_state64(state@, k, p) ==> residue_state64(next@, k, p)
                    && forall|i: int|
                    0 <= i < j ==> decrypted64(#[trigger] next[i], k) == crate::modular::pow_mod(
                        decrypted64(state[i], k) as int,
                        alpha as nat,
                        p,
                    ),
        decreases state.len() - j,
    {
        let power = fhe_modexp_64(ev, &state[j], alpha, prime);
        let ghost earlier = next@;
        next.push(power);
        proof {
            assert forall|k: ClientKey|
                serves(*ev, k) && residue_state64(state@, k, p) implies residue_state64(
                next@,
                k,
                p,
            ) && forall|i: int|
                0 <= i < j + 1 ==> decrypted64(#[trigger] next[i], k) == crate::modular::pow_mod(
                    decrypted64(state[i], k) as int,
                    alpha as nat,
                    p,
                ) by {
                assert(residue_state64(earlier, k, p));
                lemma_mod_bound(
                    vstd::arithmetic::power::pow(decrypted64(state[j as int], k) as int, alpha as nat),
                    p,
                );
                assert forall|i: int| 0 <= i < next.len() implies sound64(#[trigger] next[i], k)
                    && decrypted64(next[i], k) < p by {
                }
                assert forall|i: int| 0 <= i < j + 1 implies decrypted64(#[trigger] next[i], k)
                    == crate::modular::pow_mod(decrypted64(state[i], k) as int, alpha as nat, p) by {
                }
            }
        }
        j = j + 1;
    }
    proof {
        assert forall|k: ClientKey|
            serves(*ev, k) && residue_state64(state@, k, p) implies plain64(next@, k) == sbox_all(
            plain64(state@, k),
            alpha as nat,
            p,
        ) by {
            assert(residue_state64(next@, k, p));
        }
    }
    next
}

/// The S-box on element 0 of the state; the other elements stay.
pub(crate) fn sbox_first_64(ev: &Evaluator, state: Vec<Encrypted64>, alpha: u64, prime: u64) -> (next:
    Vec<Encrypted64>)
    requires
        fits_all64(*ev, state@),
        alpha > 0,
        lift_safe(prime as int, wrap64()),
    ensures
        fits_all64(*ev, next@),
        next.len() == state.len(),
        forall|k: ClientKey|
            #![trigger residue_state64(next@, k, prime as int)]
            #![trigger plain64(next@, k)]
            serves(*ev, k) && residue_state64(state@, k, prime as int) ==> residue_state64(
                next@,
                k,
                prime as int,
            ) && plain64(next@, k) == sbox_first(plain64(state@, k), alpha as nat, prime as int),
{
    let ghost p: int = prime as int;
    let mut next = state;
    if next.len() > 0 {
        let power = fhe_modexp_64(ev, &next[0], alpha, prime);
        next.set(0, power);
        proof {
            assert forall|k: ClientKey|
                serves(*ev, k) && residue_state64(state@, k, p) implies residue_state64(
                next@,
                k,
                p,
            ) && plain64(next@, k) == sbox_first(plain64(state@, k), alpha as nat, p) by {
                lemma_mod_bound(
                    vstd::arithmetic::power::pow(decrypted64(state[0], k) as int, alpha as nat),
                    p,
                );
                assert forall|i: int| 0 <= i < next.len() implies sound64(#[trigger] next[i], k)
                    && decrypted64(next[i], k) < p by {
                }
            }
        }
    }
    next
}

/// The profile that tables of `u64` stand for.
pub open spec fn profile64(
    prime: u64,
    alpha: u64,
    r_full: usize,
    r_partial: usize,
    constants: Seq<u64>,
    matrix: [[u64; 4]; 4],
) -> Profile {
    Profile {
        prime: prime as int,
        alpha: alpha as nat,
        r_full: r_full as nat,
        r_partial: r_partial as nat,
        constants: ints64(constants),
        matrix: matrix64(matrix),
    }
}

/// One full round: constants, S-box on every element, matrix.
pub(crate) fn full_round_64(
    ev: &Evaluator,
    state: Vec<Encrypted64>,
    constants: &Vec<u64>,
    mds_matrix: &[[u64; 4]; 4],
    prime: u64,
    alpha: u64,
    r: usize,
    Ghost(pr): Ghost<Profile>,
) -> (next: Vec<Encrypted64>)
    requires
        fits_all64(*ev, state@),
        pr.wf(),
        pr.prime == prime,
        pr.alpha == alpha,
        pr.constants == ints64(constants@),
        pr.matrix == matrix64(*mds_matrix),
        lift_safe(prime as int, wrap64()),
        state.len() == 4,
        r < pr.rounds(),
    ensures
        fits_all64(*ev, next@),
        next.len() == 4,
        forall|k: ClientKey|
            #![trigger residue_state64(next@, k, prime as int)]
            #![trigger plain64(next@, k)]
            serves(*ev, k) && residue_state64(state@, k, prime as int) ==> residue_state64(
                next@,
                k,
                prime as int,
            ) && plain64(next@, k) == full_round(pr, plain64(state@, k), r as int),
{
    assert(constants.len() == pr.rounds() * 4);
    let added = add_constants_64(ev, &state, constants, r * 4, prime);
    let boxed = sbox_all_64(ev, &added, alpha, prime);
    let next = apply_mds_matrix(ev, boxed, mds_matrix, prime);
    next
}

/// One partial round: constants, S-box on element 0, matrix.
pub(crate) fn partial_round_64(
    ev: &Evaluator,
    state: Vec<Encrypted64>,
    constants: &Vec<u64>,
    mds_matrix: &[[u64; 4]; 4],
    prime: u64,
    alpha: u64,
    r: usize,
    Ghost(pr): Ghost<Profile>,
) -> (next: Vec<Encrypted64>)
    requires
        fits_all64(*ev, state@),
        pr.wf(),
        pr.prime == prime,
        pr.alpha == alpha,
        pr.constants == ints64(constants@),
        pr.matrix == matrix64(*mds_matrix),
        lift_safe(prime as int, wrap64()),
        state.len() == 4,
        r < pr.rounds(),
    ensures
        fits_all64(*ev, next@),
        next.len() == 4,
        forall|k: ClientKey|
            #![trigger residue_state64(next@, k, prime as int)]
            #![trigger plain64(next@, k)]
            serves(*ev, k) && residue_state64(state@, k, prime as int) ==> residue_state64(
                next@,
                k,
                prime as int,
            ) && plain64(next@, k) == partial_round(pr, plain64(state@, k), r as int),
{
    assert(constants.len() == pr.rounds() * 4);
    let added = add_constants_64(ev, &state, constants, r * 4, prime);
    let boxed = sbox_first_64(ev, added, alpha, prime);
    let next = apply_mds_matrix(ev, boxed, mds_matrix, prime);
    next
}

/// All rounds of the permutation on a state of four encrypted residues: half
/// of the full rounds, the partial rounds, the other half of the full rounds.
/// The round counts decide how often each loop runs; nothing else does.
pub(crate) fn rounds_64(
    ev: &Evaluator,
    state: Vec<Encrypted64>,
    constants: &Vec<u64>,
    mds_matrix: &[[u64; 4]; 4],
    prime: u64,
    alpha: u64,
    r_full: usize,
    r_partial: usize,
) -> (last: Vec<Encrypted64>)
    requires
        fits_all64(*ev, state@),
        profile64(prime, alpha, r_full, r_partial, constants@, *mds_matrix).wf(),
        lift_safe(prime as int, wrap64()),
        state.len() == 4,
    ensures
        fits_all64(*ev, last@),
        last.len() == 4,
        forall|k: ClientKey|
            #![trigger residue_state64(last@, k, prime as int)]
            #![trigger plain64(last@, k)]
            serves(*ev, k) && residue_state64(state@, k, prime as int) ==> residue_state64(
                last@,
                k,
                prime as int,
            ) && plain64(last@, k) == after_rounds(
                profile64(prime, alpha, r_full, r_partial, constants@, *mds_matrix),
                plain64(state@, k),
                (r_full + r_partial) as nat,
            ),
{
    let ghost pr: Profile = profile64(prime, alpha, r_full, r_partial, constants@, *mds_matrix);
    let ghost p: int = prime as int;
    let ghost start = state@;
    let half: usize = r_full / 2;
    let mut state = state;
    let mut done: usize = 0;
    while done < half
        invariant
            fits_all64(*ev, state@),
            pr == profile64(prime, alpha, r_full, r_partial, constants@, *mds_matrix),
            pr.wf(),
            p == prime,
            lift_safe(p, wrap64()),
            half == r_full / 2,
            r_full % 2 == 0,
            constants.len() == (r_full + r_partial) * 4,
            done <= half,
            state.len() == 4,
            forall|k: ClientKey|
                #![trigger residue_state64(state@, k, p)]
                #![trigger plain64(state@, k)]
                serves(*ev, k) && residue_state64(start, k, p) ==> residue_state64(state@, k, p)
                    && plain64(state@, k) == after_rounds(pr, plain64(start, k), done as nat),
        decreases half - done,
    {
        state = full_round_64(ev, state, constants, mds_matrix, prime, alpha, done, Ghost(pr));
        done = done + 1;
    }
    let mut partial: usize = 0;
    while partial < r_partial
        invariant
            fits_all64(*ev, state@),
            pr == profile64(prime, alpha, r_full, r_partial, constants@, *mds_matrix),
            pr.wf(),
            p == prime,
            lift_safe(p, wrap64()),
            half == r_full / 2,
            r_full % 2 == 0,
            constants.len() == (r_full + r_partial) * 4,
            partial <= r_partial,
            state.len() == 4,
            forall|k: ClientKey|
                #![trigger residue_state64(state@, k, p)]
                #![trigger plain64(state@, k)]
                serves(*ev, k) && residue_state64(start, k, p) ==> residue_state64(state@, k, p)
                    && plain64(state@, k) == after_rounds(
                    pr,
                    plain64(start, k),
                    (half + partial) as nat,
                ),
        decreases r_partial - partial,
    {
        state =
        partial_round_64(
            ev,
            state,
            constants,
            mds_matrix,
            prime,
            alpha,
            half + partial,
            Ghost(pr),
        );
        partial = partial + 1;
    }
    let mut last: usize = 0;
    while last < half
        invariant
            fits_all64(*ev, state@),
            pr == profile64(prime, alpha, r_full, r_partial, constants@, *mds_matrix),
            pr.wf(),
            p == prime,
            lift_safe(p, wrap64()),
            half == r_full / 2,
            r_full % 2 == 0,
            constants.len() == (r_full + r_partial) * 4,
            last <= half,
            state.len() == 4,
            forall|k: ClientKey|
                #![trigger residue_state64(state@, k, p)]
                #![trigger plain64(state@, k)]
                serves(*ev, k) && residue_state64(start, k, p) ==> residue_state64(state@, k, p)
                    && plain64(state@, k) == after_rounds(
                    pr,
                    plain64(start, k),
                    (half + r_partial + last) as nat,
                ),
        decreases half - last,
    {
        state =
        full_round_64(
            ev,
            state,
            constants,
            mds_matrix,
            prime,
            alpha,
            half + r_partial + last,
            Ghost(pr),
        );
        last = last + 1;
    }
    state
}

} // verus!
