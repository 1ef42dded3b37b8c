//! The permutation as mathematics: what every evaluation of it, clear or
//! encrypted, is proved to compute.

use crate::modular::pow_mod;
use vstd::arithmetic::div_mod::{lemma_add_mod_noop, lemma_mul_mod_noop_general};
use vstd::arithmetic::mul::lemma_mul_is_distributive_add_other_way;
use vstd::prelude::*;

verus! {

/// Number of elements of the state.
pub open spec fn width() -> nat {
    4
}

/// One instance of the permutation: the prime, the S-box exponent, the two
/// round counts, the round constants in the order of their use, and the
/// mixing matrix by rows.
pub struct Profile {
    pub prime: int,
    pub alpha: nat,
    pub r_full: nat,
    pub r_partial: nat,
    pub constants: Seq<int>,
    pub matrix: Seq<Seq<int>>,
}

/// Every element of `s` is a residue modulo `p`.
pub open spec fn residues(s: Seq<int>, p: int) -> bool {
    forall|i: int| 0 <= i < s.len() ==> 0 <= #[trigger] s[i] < p
}

/// `m` is a square matrix of side `n` whose entries are residues modulo `p`.
pub open spec fn residue_matrix(m: Seq<Seq<int>>, n: nat, p: int) -> bool {
    &&& m.len() == n
    &&& forall|i: int| 0 <= i < n ==> (#[trigger] m[i]).len() == n && residues(m[i], p)
}

impl Profile {
    /// Number of rounds.
    pub open spec fn rounds(self) -> nat {
        self.r_full + self.r_partial
    }

    /// The profile is usable: an even number of full rounds, one constant for
    /// each state element of each round, and tables reduced modulo the prime.
    pub open spec fn wf(self) -> bool {
        &&& self.prime > 0
        &&& self.alpha > 0
        &&& self.r_full % 2 == 0
        &&& self.constants.len() == self.rounds() * width()
        &&& residues(self.constants, self.prime)
        &&& residue_matrix(self.matrix, width(), self.prime)
    }

    /// Whether round `r` applies the S-box to the whole state: the first and the
    /// last `r_full / 2` rounds do, the `r_partial` rounds between them do not.
    pub open spec fn is_full(self, r: int) -> bool {
        r < self.r_full / 2 || r >= self.r_full / 2 + self.r_partial
    }
}

/// The sum of the first `n` products `a[j] * b[j]`.
pub open spec fn dot(a: Seq<int>, b: Seq<int>, n: nat) -> int
    decreases n,
{
    if n == 0 {
        0
    } else {
        dot(a, b, (n - 1) as nat) + a[n - 1] * b[n - 1]
    }
}

/// The state multiplied by the matrix modulo `p`: element `i` of the result is
/// row `i` of the matrix times the state.
pub open spec fn mix(state: Seq<int>, matrix: Seq<Seq<int>>, p: int) -> Seq<int> {
    Seq::new(state.len(), |i: int| dot(state, matrix[i], state.len()) % p)
}

/// The state after the constants from position `at` on were added modulo `p`.
pub open spec fn add_constants(state: Seq<int>, constants: Seq<int>, at: int, p: int) -> Seq<
    int,
> {
    Seq::new(state.len(), |j: int| (state[j] + constants[at + j]) % p)
}

/// The S-box on every element.
pub open spec fn sbox_all(state: Seq<int>, alpha: nat, p: int) -> Seq<int> {
    Seq::new(state.len(), |j: int| pow_mod(state[j], alpha, p))
}

/// The S-box on element 0 alone.
pub open spec fn sbox_first(state: Seq<int>, alpha: nat, p: int) -> Seq<int> {
    Seq::new(
        state.len(),
        |j: int|
            if j == 0 {
                pow_mod(state[0], alpha, p)
            } else {
                state[j]
            },
    )
}

/// A full round: constants, S-box on every element, matrix.
pub open spec fn full_round(pr: Profile, state: Seq<int>, r: int) -> Seq<int> {
    mix(
        sbox_all(add_constants(state, pr.constants, r * width(), pr.prime), pr.alpha, pr.prime),
        pr.matrix,
        pr.prime,
    )
}

/// A partial round: constants, S-box on element 0, matrix.
pub open spec fn partial_round(pr: Profile, state: Seq<int>, r: int) -> Seq<int> {
    mix(
        sbox_first(add_constants(state, pr.constants, r * width(), pr.prime), pr.alpha, pr.prime),
        pr.matrix,
        pr.prime,
    )
}

/// Round number `r`, counted from 0.
pub open spec fn round(pr: Profile, state: Seq<int>, r: int) -> Seq<int> {
    if pr.is_full(r) {
        full_round(pr, state, r)
    } else {
        partial_round(pr, state, r)
    }
}

/// The state after the first `n` rounds.
pub open spec fn after_rounds(pr: Profile, state: Seq<int>, n: nat) -> Seq<int>
    decreases n,
{
    if n == 0 {
        state
    } else {
        round(pr, after_rounds(pr, state, (n - 1) as nat), n - 1)
    }
}

/// The inputs reduced modulo `p`, which is the state that the rounds start on.
pub open spec fn reduce(input: Seq<int>, p: int) -> Seq<int> {
    Seq::new(input.len(), |j: int| input[j] % p)
}

/// The permutation: all rounds on the reduced input.
pub open spec fn permute(pr: Profile, input: Seq<int>) -> Seq<int> {
    after_rounds(pr, reduce(input, pr.prime), pr.rounds())
}

/// The hash of four inputs: element 1 of the permuted state.
pub open spec fn hash(pr: Profile, input: Seq<int>) -> int {
    permute(pr, input)[1]
}

/// The element-wise sum of two states.
pub open spec fn state_sum(a: Seq<int>, b: Seq<int>) -> Seq<int> {
    Seq::new(a.len(), |j: int| a[j] + b[j])
}

/// The element-wise sum of two states, reduced modulo `p`.
pub open spec fn state_sum_mod(a: Seq<int>, b: Seq<int>, p: int) -> Seq<int> {
    Seq::new(a.len(), |j: int| (a[j] + b[j]) % p)
}

/// A row times a sum of states is the sum of the row times each state.
pub proof fn lemma_dot_additive(a: Seq<int>, b: Seq<int>, row: Seq<int>, n: nat)
    requires
        a.len() == b.len(),
        n <= a.len(),
    ensures
        dot(state_sum(a, b), row, n) == dot(a, row, n) + dot(b, row, n),
    decreases n,
{
    if n > 0 {
        lemma_dot_additive(a, b, row, (n - 1) as nat);
        lemma_mul_is_distributive_add_other_way(row[n - 1], a[n - 1], b[n - 1]);
    }
}

/// A row times a state depends, modulo `p`, only on the residues of the
/// state.
pub proof fn lemma_dot_congruent(a: Seq<int>, b: Seq<int>, row: Seq<int>, n: nat, p: int)
    requires
        p > 0,
        a.len() == b.len(),
        n <= a.len(),
        forall|j: int| 0 <= j < a.len() ==> a[j] % p == b[j] % p,
    ensures
        dot(a, row, n) % p == dot(b, row, n) % p,
    decreases n,
{
    if n > 0 {
        lemma_dot_congruent(a, b, row, (n - 1) as nat, p);
        lemma_mul_mod_noop_general(a[n - 1], row[n - 1], p);
        lemma_mul_mod_noop_general(b[n - 1], row[n - 1], p);
        lemma_add_mod_noop(dot(a, row, (n - 1) as nat), a[n - 1] * row[n - 1], p);
        lemma_add_mod_noop(dot(b, row, (n - 1) as nat), b[n - 1] * row[n - 1], p);
    }
}

/// The matrix product is linear modulo `p`: the product of a sum of two
/// states, reduced or not, is element by element the sum of the two products
/// modulo `p`.
pub proof fn lemma_mix_linear(a: Seq<int>, b: Seq<int>, matrix: Seq<Seq<int>>, p: int)
    requires
        p > 0,
        a.len() == b.len(),
    ensures
        mix(state_sum(a, b), matrix, p) == state_sum_mod(mix(a, matrix, p), mix(b, matrix, p), p),
        mix(state_sum_mod(a, b, p), matrix, p) == state_sum_mod(
            mix(a, matrix, p),
            mix(b, matrix, p),
            p,
        ),
{
    let n = a.len();
    let total = state_sum(a, b);
    let reduced = state_sum_mod(a, b, p);
    let want = state_sum_mod(mix(a, matrix, p), mix(b, matrix, p), p);
    assert forall|i: int| 0 <= i < n implies (#[trigger] mix(total, matrix, p)[i]) == want[i]
        && mix(reduced, matrix, p)[i] == want[i] by {
        lemma_dot_additive(a, b, matrix[i], n);
        lemma_add_mod_noop(dot(a, matrix[i], n), dot(b, matrix[i], n), p);
        assert forall|j: int| 0 <= j < n implies reduced[j] % p == total[j] % p by {
            vstd::arithmetic::div_mod::lemma_mod_twice(a[j] + b[j], p);
        }
        lemma_dot_congruent(reduced, total, matrix[i], n, p);
    }
}

} // verus!
