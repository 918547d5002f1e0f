use ff_ext::goldilocks::Goldilocks;
use ff_ext::poseidon::{NoAllocExternalLayer, NoAllocInternalLayer, NoAllocPoseidon};
use p3_field::{PrimeCharacteristicRing, PrimeField64};
use p3_goldilocks::{
    Poseidon2Goldilocks, Poseidon2InternalLayerGoldilocks, HL_GOLDILOCKS_8_EXTERNAL_ROUND_CONSTANTS,
    HL_GOLDILOCKS_8_INTERNAL_ROUND_CONSTANTS,
};
use p3_poseidon2::{ExternalLayerConstants, InternalLayer, InternalLayerConstructor};
use p3_symmetric::Permutation;

const P: u64 = 0xFFFF_FFFF_0000_0001;

fn state_of(words: [u64; 8]) -> [Goldilocks; 8] {
    words.map(Goldilocks::from_v)
}

fn words_of(state: &[Goldilocks; 8]) -> [u64; 8] {
    state.map(|g| g.to_canonical_u64())
}

fn reference(words: [u64; 8]) -> [u64; 8] {
    let [initial, terminal] = HL_GOLDILOCKS_8_EXTERNAL_ROUND_CONSTANTS;
    let initial = initial.map(|rc| rc.map(p3_goldilocks::Goldilocks::from_u64)).to_vec();
    let terminal = terminal.map(|rc| rc.map(p3_goldilocks::Goldilocks::from_u64)).to_vec();
    let internal = HL_GOLDILOCKS_8_INTERNAL_ROUND_CONSTANTS
        .map(p3_goldilocks::Goldilocks::from_u64)
        .to_vec();
    let perm: Poseidon2Goldilocks<8> =
        Poseidon2Goldilocks::new(ExternalLayerConstants::new(initial, terminal), internal);
    let mut s = words.map(p3_goldilocks::Goldilocks::from_u64);
    perm.permute_mut(&mut s);
    s.map(|x| x.as_canonical_u64())
}

fn permuted(words: [u64; 8]) -> [u64; 8] {
    let mut state = state_of(words);
    NoAllocPoseidon {}.permute_mut(&mut state);
    words_of(&state)
}

#[test]
fn permutation_of_zero_matches_the_field_crate() {
    assert_eq!(permuted([0; 8]), reference([0; 8]));
}

#[test]
fn permutation_of_a_range_matches_the_field_crate() {
    let words = [0, 1, 2, 3, 4, 5, 6, 7];
    assert_eq!(permuted(words), reference(words));
}

#[test]
fn permutation_of_large_words_matches_the_field_crate() {
    let words = [
        5116996373749832116,
        8931548647907683339,
        17132360229780760684,
        11280040044015983889,
        11957737519043010992,
        15695650327991256125,
        17604752143022812942,
        543194415197607509,
    ];
    assert_eq!(permuted(words), reference(words));
}

#[test]
fn permutation_changes_the_state() {
    assert_ne!(permuted([0; 8]), [0; 8]);
    let words = [1, 2, 3, 4, 5, 6, 7, 8];
    assert_ne!(permuted(words), words);
}

#[test]
fn permutation_output_is_canonical() {
    let out = permuted([u64::MAX; 8]);
    assert!(out.iter().all(|&w| w < P));
}

#[test]
fn permutation_depends_on_the_field_element_only() {
    let raw = [u64::MAX, P, P + 1, 3, 4, 5, 6, 7];
    let reduced = [u64::MAX - P, 0, 1, 3, 4, 5, 6, 7];
    assert_eq!(permuted(raw), permuted(reduced));
}

#[test]
fn equal_field_elements_permute_to_equal_stored_states() {
    let mut raw = state_of([u64::MAX, P, P + 1, 3, 4, 5, 6, 7]);
    let mut reduced = state_of([u64::MAX - P, 0, 1, 3, 4, 5, 6, 7]);
    NoAllocPoseidon {}.permute_mut(&mut raw);
    NoAllocPoseidon {}.permute_mut(&mut reduced);
    assert_eq!(raw.map(|g| g.repr_u64()), reduced.map(|g| g.repr_u64()));
    assert!(raw.iter().all(|g| g.repr_u64() < P));
}

#[test]
fn permutation_is_the_three_layers_in_order() {
    let words = [11, 22, 33, 44, 55, 66, 77, 88];
    let mut state = state_of(words);
    NoAllocExternalLayer.permute_state_initial(&mut state);
    NoAllocInternalLayer.permute_state(&mut state);
    NoAllocExternalLayer.permute_state_terminal(&mut state);
    assert_eq!(words_of(&state), permuted(words));
}

#[test]
fn each_layer_changes_the_state() {
    let words = [1, 0, 0, 0, 0, 0, 0, 0];
    let mut a = state_of(words);
    NoAllocExternalLayer.permute_state_initial(&mut a);
    assert_ne!(words_of(&a), words);
    let mut b = state_of(words);
    NoAllocInternalLayer.permute_state(&mut b);
    assert_ne!(words_of(&b), words);
    let mut c = state_of(words);
    NoAllocExternalLayer.permute_state_terminal(&mut c);
    assert_ne!(words_of(&c), words);
    assert_ne!(words_of(&a), words_of(&c));
}

#[test]
fn internal_rounds_match_the_field_crate_layer() {
    let words = [5, 6, 7, 8, 9, 10, u64::MAX, P - 1];
    let layer = Poseidon2InternalLayerGoldilocks::new_from_constants(
        HL_GOLDILOCKS_8_INTERNAL_ROUND_CONSTANTS
            .map(p3_goldilocks::Goldilocks::from_u64)
            .to_vec(),
    );
    let mut expected = words.map(p3_goldilocks::Goldilocks::from_u64);
    layer.permute_state(&mut expected);
    let mut state = state_of(words);
    NoAllocInternalLayer.permute_state(&mut state);
    assert_eq!(words_of(&state), expected.map(|x| x.as_canonical_u64()));
}
