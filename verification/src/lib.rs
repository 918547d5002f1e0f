//! The Goldilocks prime field as the proof system uses it: conversions between
//! bytes, machine words and field elements, the width-8 Poseidon2 permutation
//! assembled from its external and internal layers on a state held on the
//! stack, and a polynomial commitment scheme that commits to nothing and
//! accepts everything.
pub mod bytes;

pub mod goldilocks;
pub mod poseidon;
pub mod mock_pcs;
