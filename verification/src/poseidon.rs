//! The width-8 Poseidon2 permutation over the Goldilocks field, run layer by
//! layer on a state held on the stack: initial external rounds, internal rounds,
//! terminal external rounds, with the Horizen Labs round constants.
use crate::goldilocks::{goldilocks_prime, lemma_repr_determines_element, Goldilocks};
use p3_field::{PrimeCharacteristicRing, PrimeField64};
use p3_goldilocks::{
    HL_GOLDILOCKS_8_EXTERNAL_ROUND_CONSTANTS, HL_GOLDILOCKS_8_INTERNAL_ROUND_CONSTANTS,
    MATRIX_DIAG_8_GOLDILOCKS,
};
use p3_poseidon2::{
    add_rc_and_sbox_generic, external_initial_permute_state, external_terminal_permute_state,
    matmul_internal, MDSMat4,
};
use vstd::prelude::*;

verus! {

/// The number of field elements in a permutation state.
pub const POSEIDON2_GOLDILICK_WIDTH: usize = 8;

/// The number of state elements that a sponge absorbs per permutation.
pub const POSEIDON2_GOLDILICK_RATE: usize = 4;

/// What the initial external rounds make of a state of eight words.
pub uninterp spec fn poseidon2_initial_external_rounds(state: Seq<u64>) -> Seq<u64>;

/// `x^7`, the S-box.
pub open spec fn pow7(x: nat) -> nat {
    x * x * x * x * x * x * x
}

/// The S-box applied to a word plus a round constant, in the field:
/// `((x + rc) mod p)^7 mod p`.
pub open spec fn sbox_add_rc(x: u64, rc: u64) -> nat {
    pow7((x as nat + rc as nat) % goldilocks_prime()) % goldilocks_prime()
}

/// The diagonal of the internal diffusion matrix `1 + diag(d)` for width 8
/// (`MATRIX_DIAG_8_GOLDILOCKS` of the field crate).
pub open spec fn internal_diag_8() -> Seq<u64> {
    seq![
        0xa98811a1fed4e3a5u64,
        0x1cc48b54f377e2a0u64,
        0xe40cd4f6c5609a26u64,
        0x11de79ebca97a4a3u64,
        0x9177c73d8b7e929cu64,
        0x2a6fe8085797e791u64,
        0x3de6e93329f8d5adu64,
        0x3f7af9125da962feu64,
    ]
}

/// The Horizen Labs internal round constants for width 8
/// (`HL_GOLDILOCKS_8_INTERNAL_ROUND_CONSTANTS` of the field crate).
pub open spec fn hl_internal_round_constants() -> Seq<u64> {
    seq![
        0x488897d85ff51f56u64,
        0x1140737ccb162218u64,
        0xa7eeb9215866ed35u64,
        0x9bd2976fee49fcc9u64,
        0xc0c8f0de580a3fccu64,
        0x4fb2dae6ee8fc793u64,
        0x343a89f35f37395bu64,
        0x223b525a77ca72c8u64,
        0x56ccb62574aaa918u64,
        0xc4d507d8027af9edu64,
        0xa080673cf0b7e95cu64,
        0xf0184884eb70dcf8u64,
        0x044f10b0cb3d5c69u64,
        0xe9e3f7993938f186u64,
        0x1b761c80e772f459u64,
        0x606cec607a1b5facu64,
        0x14a0c2e1d45f03cdu64,
        0x4eace8855398574fu64,
        0xf905ca7103eff3e6u64,
        0xf8c8f8d20862c059u64,
        0xb524fe8bdd678e5au64,
        0xfbb7865901a1ec41u64,
    ]
}

/// The sum of the eight words of a state, as an integer.
pub open spec fn sum8(s: Seq<u64>) -> nat {
    s[0] as nat + s[1] as nat + s[2] as nat + s[3] as nat + s[4] as nat + s[5] as nat
        + s[6] as nat + s[7] as nat
}

/// The internal diffusion `(1 + diag(d)) s` in the field: word `i` becomes
/// `(s[i] * d[i] + sum(s)) mod p`.
pub open spec fn internal_diffusion(s: Seq<u64>) -> Seq<u64> {
    Seq::new(
        8,
        |i: int|
            ((s[i] as nat * internal_diag_8()[i] as nat + sum8(s)) % goldilocks_prime()) as u64,
    )
}

/// One internal round with round constant `rc`: the S-box on the first word
/// plus `rc`, then the internal diffusion.
pub open spec fn internal_round(s: Seq<u64>, rc: u64) -> Seq<u64> {
    internal_diffusion(s.update(0, sbox_add_rc(s[0], rc) as u64))
}

/// The first `k` internal rounds.
pub open spec fn internal_rounds_upto(s: Seq<u64>, k: nat) -> Seq<u64>
    decreases k,
{
    if k == 0 {
        s
    } else {
        internal_round(
            internal_rounds_upto(s, (k - 1) as nat),
            hl_internal_round_constants()[k - 1],
        )
    }
}

/// What the internal rounds make of a state of eight words: the internal round
/// for each of the 22 constants in turn.
pub open spec fn poseidon2_internal_rounds(state: Seq<u64>) -> Seq<u64> {
    internal_rounds_upto(state, 22)
}

/// What the terminal external rounds make of a state of eight words.
pub uninterp spec fn poseidon2_terminal_external_rounds(state: Seq<u64>) -> Seq<u64>;

/// Every word of `s` is a canonical field representative.
pub open spec fn all_canonical(s: Seq<u64>) -> bool {
    forall|i: int| 0 <= i < s.len() ==> #[trigger] s[i] < goldilocks_prime()
}

/// The representatives held by a state.
pub open spec fn state_words(state: [Goldilocks; 8]) -> Seq<u64> {
    state@.map_values(|g: Goldilocks| g.repr())
}

/// The field elements of a state, as canonical words.
pub open spec fn state_values(state: [Goldilocks; 8]) -> Seq<u64> {
    state@.map_values(|g: Goldilocks| g@ as u64)
}

/// `external_initial_permute_state` of the field crate's Poseidon2, run on the
/// stack as the field crate's external layer for Goldilocks runs it: the
/// initial Horizen Labs external round constants, the S-box by
/// `add_rc_and_sbox_generic` (degree 7, the only one the field admits) and the
/// linear layer `MDSMat4`. The words go in as field elements and come out as
/// canonical representatives. Claimed: the result is the named function of the
/// input words, and every output word is below `p`.
#[verifier::external_body]
fn external_initial_rounds(state: [u64; 8]) -> (r: [u64; 8])
    ensures
        r@ == poseidon2_initial_external_rounds(state@),
        all_canonical(r@),
{
    let constants =
        HL_GOLDILOCKS_8_EXTERNAL_ROUND_CONSTANTS[0].map(|rc| rc.map(p3_goldilocks::Goldilocks::from_u64));
    let mut s = state.map(p3_goldilocks::Goldilocks::from_u64);
    external_initial_permute_state(&mut s, &constants, add_rc_and_sbox_generic, &MDSMat4);
    s.map(|x| x.as_canonical_u64())
}

/// `external_terminal_permute_state` of the field crate's Poseidon2, run on the
/// stack with the terminal Horizen Labs external round constants and otherwise
/// as `external_initial_rounds`. Claimed: the result is the named function of
/// the input words, and every output word is below `p`.
#[verifier::external_body]
fn external_terminal_rounds(state: [u64; 8]) -> (r: [u64; 8])
    ensures
        r@ == poseidon2_terminal_external_rounds(state@),
        all_canonical(r@),
{
    let constants =
        HL_GOLDILOCKS_8_EXTERNAL_ROUND_CONSTANTS[1].map(|rc| rc.map(p3_goldilocks::Goldilocks::from_u64));
    let mut s = state.map(p3_goldilocks::Goldilocks::from_u64);
    external_terminal_permute_state(&mut s, &constants, add_rc_and_sbox_generic, &MDSMat4);
    s.map(|x| x.as_canonical_u64())
}

/// `add_rc_and_sbox_generic` of the field crate's Poseidon2 on one Goldilocks
/// element: it adds the round constant and raises to the 7th power (the
/// field's `InjectiveMonomial<7>`). The word comes out canonical. Claimed: the
/// result is `((x + rc) mod p)^7 mod p`.
#[verifier::external_body]
fn add_rc_and_sbox(x: u64, rc: u64) -> (r: u64)
    ensures
        r == sbox_add_rc(x, rc),
{
    let mut v = p3_goldilocks::Goldilocks::from_u64(x);
    add_rc_and_sbox_generic(&mut v, p3_goldilocks::Goldilocks::from_u64(rc));
    v.as_canonical_u64()
}

/// `matmul_internal` of the field crate's Poseidon2 with the diagonal
/// `MATRIX_DIAG_8_GOLDILOCKS`: every word is multiplied by its diagonal entry
/// and the sum of all words is added, in the field. The words come out
/// canonical. Claimed: the result is `internal_diffusion` of the input.
#[verifier::external_body]
fn matmul_internal_diag_8(state: [u64; 8]) -> (r: [u64; 8])
    ensures
        r@ == internal_diffusion(state@),
{
    let mut s = state.map(p3_goldilocks::Goldilocks::from_u64);
    matmul_internal(&mut s, MATRIX_DIAG_8_GOLDILOCKS);
    s.map(|x| x.as_canonical_u64())
}

/// `HL_GOLDILOCKS_8_INTERNAL_ROUND_CONSTANTS` of the field crate. Claimed: the
/// 22 words are those of `hl_internal_round_constants`.
#[verifier::external_body]
fn hl_internal_constants() -> (r: [u64; 22])
    ensures
        r@ == hl_internal_round_constants(),
{
    HL_GOLDILOCKS_8_INTERNAL_ROUND_CONSTANTS
}

/// The internal rounds, as the field crate's `internal_permute_state` runs
/// them: for each round constant, the S-box on the first word plus the
/// constant, then the internal diffusion. Everything stays on the stack.
fn internal_rounds(state: [u64; 8]) -> (r: [u64; 8])
    ensures
        r@ == poseidon2_internal_rounds(state@),
        all_canonical(r@),
{
    let constants = hl_internal_constants();
    let mut s = state;
    let mut i: usize = 0;
    while i < 22
        invariant
            i <= 22,
            constants@ == hl_internal_round_constants(),
            s@ == internal_rounds_upto(state@, i as nat),
            i > 0 ==> all_canonical(s@),
        decreases 22 - i,
    {
        let x = add_rc_and_sbox(s[0], constants[i]);
        s[0] = x;
        s = matmul_internal_diag_8(s);
        i = i + 1;
    }
    s
}

/// The field elements of a state, as canonical words.
fn to_canonical_words(state: &[Goldilocks; 8]) -> (r: [u64; 8])
    ensures
        r@ == state_values(*state),
        all_canonical(r@),
{
    let mut words: [u64; 8] = [0u64; 8];
    let mut i: usize = 0;
    while i < 8
        invariant
            i <= 8,
            words@.len() == 8,
            forall|k: int| 0 <= k < i ==> words@[k] == state@[k]@,
        decreases 8 - i,
    {
        words[i] = state[i].to_canonical_u64();
        i = i + 1;
    }
    assert(words@ =~= state_values(*state));
    words
}

/// Writes canonical words back into a state, each as the representative of
/// its element.
fn store_words(state: &mut [Goldilocks; 8], words: [u64; 8])
    requires
        all_canonical(words@),
    ensures
        state_words(*final(state)) == words@,
        state_values(*final(state)) == words@,
{
    let mut i: usize = 0;
    while i < 8
        invariant
            i <= 8,
            state@.len() == 8,
            words@.len() == 8,
            all_canonical(words@),
            forall|k: int| 0 <= k < i ==> state@[k].repr() == words@[k],
        decreases 8 - i,
    {
        state[i] = Goldilocks::from_v(words[i]);
        i = i + 1;
    }
    assert(state_words(*state) =~= words@);
    assert forall|k: int| 0 <= k < 8 implies #[trigger] state@[k]@ == words@[k] by {
        assert(words@[k] < goldilocks_prime());
    }
    assert(state_values(*state) =~= words@);
}

/// The external (full) rounds of the permutation.
#[derive(Clone, Copy, Debug)]
pub struct NoAllocExternalLayer;

/// The internal (partial) rounds of the permutation.
#[derive(Clone, Copy, Debug)]
pub struct NoAllocInternalLayer;

impl NoAllocExternalLayer {
    /// Runs the initial external rounds on the state in place. The result is a
    /// function of the state's field elements, and is stored canonically.
    pub fn permute_state_initial(&self, state: &mut [Goldilocks; 8])
        ensures
            state_values(*final(state)) == poseidon2_initial_external_rounds(
                state_values(*old(state)),
            ),
            state_words(*final(state)) == state_values(*final(state)),
    {
        let words = to_canonical_words(state);
        let out = external_initial_rounds(words);
        store_words(state, out);
    }

    /// Runs the terminal external rounds on the state in place. The result is a
    /// function of the state's field elements, and is stored canonically.
    pub fn permute_state_terminal(&self, state: &mut [Goldilocks; 8])
        ensures
            state_values(*final(state)) == poseidon2_terminal_external_rounds(
                state_values(*old(state)),
            ),
            state_words(*final(state)) == state_values(*final(state)),
    {
        let words = to_canonical_words(state);
        let out = external_terminal_rounds(words);
        store_words(state, out);
    }
}

impl NoAllocInternalLayer {
    /// Runs the internal rounds on the state in place. The result is a function
    /// of the state's field elements, and is stored canonically.
    pub fn permute_state(&self, state: &mut [Goldilocks; 8])
        ensures
            state_values(*final(state)) == poseidon2_internal_rounds(state_values(*old(state))),
            state_words(*final(state)) == state_values(*final(state)),
    {
        let words = to_canonical_words(state);
        let out = internal_rounds(words);
        store_words(state, out);
    }
}

/// The full Poseidon2 permutation, computed on a state held on the stack
/// without allocating.
#[derive(Clone, Copy, Debug)]
pub struct NoAllocPoseidon {}

/// The permutation as a function of the state's canonical words: initial
/// external rounds, then internal rounds, then terminal external rounds.
pub open spec fn poseidon2_permutation(state: Seq<u64>) -> Seq<u64> {
    poseidon2_terminal_external_rounds(
        poseidon2_internal_rounds(poseidon2_initial_external_rounds(state)),
    )
}

impl NoAllocPoseidon {
    /// Applies the permutation to the state in place. The result is a function
    /// of the state's field elements alone, and is stored canonically.
    pub fn permute_mut(&self, state: &mut [Goldilocks; 8])
        ensures
            state_values(*final(state)) == poseidon2_permutation(state_values(*old(state))),
            state_values(*final(state)) == poseidon2_terminal_external_rounds(
                poseidon2_internal_rounds(poseidon2_initial_external_rounds(state_values(*old(state)))),
            ),
            state_words(*final(state)) == state_values(*final(state)),
    {
        let external = NoAllocExternalLayer;
        let internal = NoAllocInternalLayer;
        external.permute_state_initial(state);
        internal.permute_state(state);
        external.permute_state_terminal(state);
    }
}

/// The permutation runs, on every state, the initial external rounds, then the
/// internal rounds, then the terminal external rounds; none is ever skipped.
pub proof fn law_permutation_is_the_three_layers(s: Seq<u64>)
    ensures
        poseidon2_permutation(s) == poseidon2_terminal_external_rounds(
            poseidon2_internal_rounds(poseidon2_initial_external_rounds(s)),
        ),
{
}

/// Every internal round, on every state of eight words and for every round
/// constant `rc`, replaces word 0 by `((s[0] + rc) mod p)^7 mod p` and then
/// multiplies by `1 + diag(d)`: word `i` of the result is
/// `(t[i] * d[i] + t[0] + ... + t[7]) mod p`, where `t` is the state with the
/// new word 0.
pub proof fn law_internal_round_formula(s: Seq<u64>, rc: u64)
    requires
        s.len() == 8,
    ensures
        ({
            let p = goldilocks_prime();
            let x = (s[0] as nat + rc as nat) % p;
            let w0 = (x * x * x * x * x * x * x) % p;
            let total = w0 + s[1] as nat + s[2] as nat + s[3] as nat + s[4] as nat + s[5] as nat
                + s[6] as nat + s[7] as nat;
            &&& internal_round(s, rc).len() == 8
            &&& internal_round(s, rc)[0] as nat == (w0 * internal_diag_8()[0] as nat + total) % p
            &&& forall|i: int|
                1 <= i < 8 ==> #[trigger] internal_round(s, rc)[i] as nat == (s[i] as nat
                    * internal_diag_8()[i] as nat + total) % p
        }),
{
    let p = goldilocks_prime();
    let t = s.update(0, sbox_add_rc(s[0], rc) as u64);
    assert(sbox_add_rc(s[0], rc) < p);
    assert(t[0] as nat == sbox_add_rc(s[0], rc));
    assert forall|i: int| 1 <= i < 8 implies #[trigger] t[i] == s[i] by {}
}

/// The permutation is a function of the field elements of its input: two states
/// that are equal as field elements (whatever their stored representatives)
/// permute to the same stored state, whichever permutation value runs and
/// whatever ran before. Stated over what `permute_mut` ensures of its two runs.
pub proof fn law_permutation_determined_by_field_values(
    before1: [Goldilocks; 8],
    before2: [Goldilocks; 8],
    after1: [Goldilocks; 8],
    after2: [Goldilocks; 8],
)
    requires
        forall|i: int| 0 <= i < 8 ==> #[trigger] before1@[i]@ == before2@[i]@,
        state_values(after1) == poseidon2_permutation(state_values(before1)),
        state_words(after1) == state_values(after1),
        state_values(after2) == poseidon2_permutation(state_values(before2)),
        state_words(after2) == state_values(after2),
    ensures
        after1 == after2,
{
    assert(state_values(before1) =~= state_values(before2));
    assert(state_words(after1) == state_words(after2));
    assert forall|i: int| 0 <= i < 8 implies after1@[i] == after2@[i] by {
        assert(state_words(after1)[i] == state_words(after2)[i]);
        lemma_repr_determines_element(after1@[i], after2@[i]);
    }
    assert(after1 =~= after2);
}

} // verus!
