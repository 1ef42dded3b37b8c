//! The permutation on clear integers, for any profile whose prime fits 64
//! bits: sums and products are formed in 128 bits, the S-box goes through the
//! big-integer power.

use crate::bigint::modpow;
use crate::modular::pow_mod;
use crate::poseidon_spec::{
    add_constants, after_rounds, dot, full_round, mix, partial_round, permute, reduce, residues,
    sbox_all, sbox_first, width, Profile,
};
use vstd::arithmetic::div_mod::lemma_add_mod_noop;
use vstd::prelude::*;

verus! {

/// The numbers of a sequence of `u64` as integers.
pub open spec fn ints(s: Seq<u64>) -> Seq<int> {
    Seq::new(s.len(), |i: int| s[i] as int)
}

/// The rows of a matrix of `u64` as sequences of integers.
pub open spec fn int_rows(m: Seq<Vec<u64>>) -> Seq<Seq<int>> {
    Seq::new(m.len(), |i: int| ints(m[i]@))
}

/// One instance of the permutation, as the evaluation on clear integers takes
/// it.
pub struct PoseidonProfile {
    /// The prime modulus.
    pub prime: u64,
    /// The exponent of the S-box.
    pub alpha: u64,
    /// The number of full rounds.
    pub r_full: usize,
    /// The number of partial rounds.
    pub r_partial: usize,
    /// One constant for each state element of each round, in the order of use.
    pub round_constants: Vec<u64>,
    /// The mixing matrix by rows.
    pub mds_matrix: Vec<Vec<u64>>,
}

impl PoseidonProfile {
    /// The profile as mathematics.
    pub open spec fn view(&self) -> Profile {
        Profile {
            prime: self.prime as int,
            alpha: self.alpha as nat,
            r_full: self.r_full as nat,
            r_partial: self.r_partial as nat,
            constants: ints(self.round_constants@),
            matrix: int_rows(self.mds_matrix@),
        }
    }

    /// The profile is usable: see [`Profile::wf`].
    pub open spec fn wf(&self) -> bool {
        self@.wf()
    }

    /// Tests at run time whether the profile is usable.
    pub fn check(&self) -> (ok: bool)
        ensures
            ok == self.wf(),
    {
        if self.prime == 0 || self.alpha == 0 || self.r_full % 2 != 0 {
            return false;
        }
        proof {
            // a table has no more constants than the machine can count
            assert(self@.constants.len() == self.round_constants.len());
        }
        let count: usize = match self.r_full.checked_add(self.r_partial) {
            Some(rounds) => match rounds.checked_mul(4) {
                Some(count) => count,
                None => {
                    return false;
                },
            },
            None => {
                return false;
            },
        };
        if self.round_constants.len() != count {
            return false;
        }
        if !all_below(&self.round_constants, self.prime) {
            return false;
        }
        if self.mds_matrix.len() != 4 {
            return false;
        }
        let ghost matrix = int_rows(self.mds_matrix@);
        let mut i: usize = 0;
        while i < 4
            invariant
                i <= 4,
                self.mds_matrix.len() == 4,
                matrix == int_rows(self.mds_matrix@),
                forall|r: int|
                    0 <= r < i ==> (#[trigger] matrix[r]).len() == 4 && residues(
                        matrix[r],
                        self.prime as int,
                    ),
            decreases 4 - i,
        {
            let row: &Vec<u64> = &self.mds_matrix[i];
            if row.len() != 4 || !all_below(row, self.prime) {
                proof {
                    assert(matrix[i as int] == ints(row@));
                }
                return false;
            }
            i = i + 1;
        }
        true
    }

    /// What a usable profile says of the sizes of its tables.
    pub proof fn lemma_shape(&self)
        requires
            self.wf(),
        ensures
            self.prime > 0,
            self.r_full % 2 == 0,
            self.round_constants.len() == (self.r_full + self.r_partial) * 4,
            self.mds_matrix.len() == 4,
            forall|i: int| 0 <= i < 4 ==> (#[trigger] self.mds_matrix[i]).len() == 4,
    {
        let m = int_rows(self.mds_matrix@);
        assert forall|i: int| 0 <= i < 4 implies (#[trigger] self.mds_matrix[i]).len() == 4 by {
            assert(m[i].len() == 4);
        }
    }
}

/// Whether every number of the table is below `bound`.
fn all_below(table: &Vec<u64>, bound: u64) -> (ok: bool)
    ensures
        ok == residues(ints(table@), bound as int),
{
    let mut i: usize = 0;
    while i < table.len()
        invariant
            i <= table.len(),
            forall|j: int| 0 <= j < i ==> table[j] < bound,
        decreases table.len() - i,
    {
        if table[i] >= bound {
            proof {
                assert(ints(table@)[i as int] == table[i as int]);
            }
            return false;
        }
        i = i + 1;
    }
    true
}

/// The state multiplied by the matrix modulo `prime`: for each row the
/// products are reduced and summed one after the other. Products are formed in
/// 128 bits, so the entries need not be reduced.
pub fn apply_mds_matrix_clear(inputs: &Vec<u64>, mds_matrix: &Vec<Vec<u64>>, prime: u64) -> (outputs:
    Vec<u64>)
    requires
        prime > 0,
        inputs.len() <= mds_matrix.len(),
        forall|i: int| 0 <= i < inputs.len() ==> inputs.len() <= (#[trigger] mds_matrix[i]).len(),
    ensures
        outputs.len() == inputs.len(),
        ints(outputs@) == mix(ints(inputs@), int_rows(mds_matrix@), prime as int),
{
    let n: usize = inputs.len();
    let ghost state: Seq<int> = ints(inputs@);
    let ghost matrix: Seq<Seq<int>> = int_rows(mds_matrix@);
    let mut outputs: Vec<u64> = Vec::new();
    let mut i: usize = 0;
    while i < n
        invariant
            i <= n,
            n == inputs.len(),
            prime > 0,
            inputs.len() <= mds_matrix.len(),
            forall|r: int| 0 <= r < inputs.len() ==> inputs.len() <= (#[trigger] mds_matrix[r]).len(),
            state == ints(inputs@),
            matrix == int_rows(mds_matrix@),
            outputs.len() == i,
            forall|r: int|
                0 <= r < i ==> #[trigger] outputs[r] as int == dot(state, matrix[r], n as nat) % (
                prime as int),
        decreases n - i,
    {
        let row: &Vec<u64> = &mds_matrix[i];
        let mut output: u64 = 0;
        let mut j: usize = 0;
        while j < n
            invariant
                j <= n,
                n == inputs.len(),
                n <= row.len(),
                prime > 0,
                state == ints(inputs@),
                output < prime,
                output as int == dot(state, ints(row@), j as nat) % (prime as int),
            decreases n - j,
        {
            let x: u64 = inputs[j];
            let entry: u64 = row[j];
            assert(x * entry <= u128::MAX) by (nonlinear_arith)
                requires
                    x <= u64::MAX,
                    entry <= u64::MAX,
            ;
            let product: u128 = (x as u128) * (entry as u128);
            let mult: u128 = product % (prime as u128);
            let sum: u128 = (output as u128 + mult) % (prime as u128);
            proof {
                let p: int = prime as int;
                lemma_add_mod_noop(dot(state, ints(row@), j as nat), state[j as int] * ints(row@)[j as int], p);
            }
            output = sum as u64;
            j = j + 1;
        }
        outputs.push(output);
        i = i + 1;
    }
    outputs
}

/// The inputs reduced modulo `prime`.
fn reduce_inputs(inputs: &Vec<u64>, prime: u64) -> (state: Vec<u64>)
    requires
        prime > 0,
    ensures
        state.len() == inputs.len(),
        ints(state@) == reduce(ints(inputs@), prime as int),
{
    let mut state: Vec<u64> = Vec::new();
    let mut j: usize = 0;
    while j < inputs.len()
        invariant
            j <= inputs.len(),
            prime > 0,
            state.len() == j,
            forall|i: int| 0 <= i < j ==> #[trigger] state[i] == inputs[i] % prime,
        decreases inputs.len() - j,
    {
        state.push(inputs[j] % prime);
        j = j + 1;
    }
    state
}

/// The state after the constants from position `at` on were added modulo
/// `prime`.
fn add_round_constants(state: &Vec<u64>, constants: &Vec<u64>, at: usize, prime: u64) -> (next:
    Vec<u64>)
    requires
        prime > 0,
        at + state.len() <= constants.len(),
    ensures
        next.len() == state.len(),
        ints(next@) == add_constants(ints(state@), ints(constants@), at as int, prime as int),
{
    let mut next: Vec<u64> = Vec::new();
    let mut j: usize = 0;
    while j < state.len()
        invariant
            j <= state.len(),
            prime > 0,
            at + state.len() <= constants.len(),
            next.len() == j,
            forall|i: int|
                0 <= i < j ==> #[trigger] next[i] as int == (state[i] + constants[at + i]) % (
                prime as int),
        decreases state.len() - j,
    {
        let sum: u128 = (state[j] as u128 + constants[at + j] as u128) % (prime as u128);
        next.push(sum as u64);
        j = j + 1;
    }
    proof {
        assert(ints(next@) =~= add_constants(
            ints(state@),
            ints(constants@),
            at as int,
            prime as int,
        ));
    }
    next
}

/// The S-box on every element of the state.
fn sbox_all_clear(state: &Vec<u64>, alpha: u64, prime: u64) -> (next: Vec<u64>)
    requires
        prime > 0,
    ensures
        next.len() == state.len(),
        ints(next@) == sbox_all(ints(state@), alpha as nat, prime as int),
{
    let mut next: Vec<u64> = Vec::new();
    let mut j: usize = 0;
    while j < state.len()
        invariant
            j <= state.len(),
            prime > 0,
            next.len() == j,
            forall|i: int|
                0 <= i < j ==> #[trigger] next[i] as int == pow_mod(
                    state[i] as int,
                    alpha as nat,
                    prime as int,
                ),
        decreases state.len() - j,
    {
        let power: u128 = modpow(state[j] as u128, alpha as u128, prime as u128);
        next.push(power as u64);
        j = j + 1;
    }
    next
}

/// The S-box on element 0 of the state; the other elements stay.
fn sbox_first_clear(state: &Vec<u64>, alpha: u64, prime: u64) -> (next: Vec<u64>)
    requires
        prime > 0,
    ensures
        next.len() == state.len(),
        ints(next@) == sbox_first(ints(state@), alpha as nat, prime as int),
{
    let mut next: Vec<u64> = Vec::new();
    let mut j: usize = 0;
    while j < state.len()
        invariant
            j <= state.len(),
            prime > 0,
            next.len() == j,
            forall|i: int|
                0 <= i < j ==> #[trigger] next[i] as int == (if i == 0 {
                    pow_mod(state[0] as int, alpha as nat, prime as int)
                } else {
                    state[i] as int
                }),
        decreases state.len() - j,
    {
        if j == 0 {
            let power: u128 = modpow(state[0] as u128, alpha as u128, prime as u128);
            next.push(power as u64);
        } else {
            next.push(state[j]);
        }
        j = j + 1;
    }
    next
}

/// One full round: constants, S-box on every element, matrix.
fn full_round_clear(profile: &PoseidonProfile, state: &Vec<u64>, r: usize) -> (next: Vec<u64>)
    requires
        profile.wf(),
        state.len() == width(),
        r < profile@.rounds(),
    ensures
        next.len() == width(),
        ints(next@) == full_round(profile@, ints(state@), r as int),
{
    proof {
        profile.lemma_shape();
    }
    let added = add_round_constants(state, &profile.round_constants, r * 4, profile.prime);
    let boxed = sbox_all_clear(&added, profile.alpha, profile.prime);
    apply_mds_matrix_clear(&boxed, &profile.mds_matrix, profile.prime)
}

/// One partial round: constants, S-box on element 0, matrix.
fn partial_round_clear(profile: &PoseidonProfile, state: &Vec<u64>, r: usize) -> (next: Vec<u64>)
    requires
        profile.wf(),
        state.len() == width(),
        r < profile@.rounds(),
    ensures
        next.len() == width(),
        ints(next@) == partial_round(profile@, ints(state@), r as int),
{
    proof {
        profile.lemma_shape();
    }
    let added = add_round_constants(state, &profile.round_constants, r * 4, profile.prime);
    let boxed = sbox_first_clear(&added, profile.alpha, profile.prime);
    apply_mds_matrix_clear(&boxed, &profile.mds_matrix, profile.prime)
}

/// The permutation of four clear inputs: they are reduced modulo the prime,
/// then go through half of the full rounds, the partial rounds and the other
/// half of the full rounds.
pub fn poseidon_permute(profile: &PoseidonProfile, inputs: &Vec<u64>) -> (state: Vec<u64>)
    requires
        profile.wf(),
        inputs.len() == width(),
    ensures
        state.len() == width(),
        ints(state@) == permute(profile@, ints(inputs@)),
        residues(ints(state@), profile.prime as int),
{
    let ghost pr: Profile = profile@;
    let ghost start: Seq<int> = reduce(ints(inputs@), profile.prime as int);
    let half: usize = profile.r_full / 2;
    proof {
        profile.lemma_shape();
    }
    let mut state = reduce_inputs(inputs, profile.prime);
    let mut done: usize = 0;
    while done < half
        invariant
            profile.wf(),
            pr == profile@,
            half == profile.r_full / 2,
            profile.r_full % 2 == 0,
            profile.round_constants.len() == (profile.r_full + profile.r_partial) * 4,
            done <= half,
            state.len() == width(),
            ints(state@) == after_rounds(pr, start, done as nat),
        decreases half - done,
    {
        state = full_round_clear(profile, &state, done);
        done = done + 1;
    }
    let mut partial: usize = 0;
    while partial < profile.r_partial
        invariant
            profile.wf(),
            pr == profile@,
            half == profile.r_full / 2,
            profile.r_full % 2 == 0,
            profile.round_constants.len() == (profile.r_full + profile.r_partial) * 4,
            partial <= profile.r_partial,
            state.len() == width(),
            ints(state@) == after_rounds(pr, start, (half + partial) as nat),
        decreases profile.r_partial - partial,
    {
        state = partial_round_clear(profile, &state, half + partial);
        partial = partial + 1;
    }
    let mut last: usize = 0;
    while last < half
        invariant
            profile.wf(),
            pr == profile@,
            half == profile.r_full / 2,
            profile.r_full % 2 == 0,
            profile.round_constants.len() == (profile.r_full + profile.r_partial) * 4,
            last <= half,
            state.len() == width(),
            ints(state@) == after_rounds(pr, start, (half + profile.r_partial + last) as nat),
        decreases half - last,
    {
        state = full_round_clear(profile, &state, half + profile.r_partial + last);
        last = last + 1;
    }
    state
}

/// The hash of four clear inputs: element 1 of the permuted state.
pub fn poseidon_hash(profile: &PoseidonProfile, inputs: &Vec<u64>) -> (digest: u64)
    requires
        profile.wf(),
        inputs.len() == width(),
    ensures
        digest == crate::poseidon_spec::hash(profile@, ints(inputs@)),
        digest < profile.prime,
{
    let state = poseidon_permute(profile, inputs);
    assert(ints(state@)[1] == state[1]);
    state[1]
}

} // verus!
