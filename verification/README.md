# ff_ext

The Goldilocks field (p = 2^64 - 2^32 + 1) as a proof system uses it, verified
with Verus.

- `src/bytes.rs`: little-endian reading of bytes into words, and chunking.
- `src/goldilocks.rs`: field elements and the quadratic extension; conversions
  from words and uniform bytes, canonical representatives, the field constants.
- `src/poseidon.rs`: the width-8 Poseidon2 permutation, layer by layer, with the
  external rounds and the internal round steps computed by the Plonky3 crates
  behind stated contracts, all on the stack.
- `src/mock_pcs.rs`: a commitment scheme that does nothing and accepts all.
- `app/lib.rs`: the permutation plugged into Plonky3's challenger, sponge,
  compression and Merkle tree commitment.
- `tests/`: tests of all of the above against concrete values.
