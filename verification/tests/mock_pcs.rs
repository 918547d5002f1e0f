use ff_ext::goldilocks::GoldilocksExt2;
use ff_ext::mock_pcs::{MockPcs, PCSFriParam, SecurityLevel};

type F = GoldilocksExt2;

#[test]
fn test_mock_pcs() {
    let _ = MockPcs::<F>::setup(10, SecurityLevel::Conjecture100bits).unwrap();
    let (pp, vp) = MockPcs::<F>::trim((), 10).unwrap();
    let num_vars = 8;
    let rmm: Vec<Vec<u64>> = (0..(1u64 << num_vars)).map(|i| vec![i * 7919 + 13]).collect();
    let poly: Vec<u64> = rmm.iter().map(|row| row[0]).collect();
    let comm_with_witness = MockPcs::<F>::commit(&pp, rmm.clone()).unwrap();
    let comm = MockPcs::<F>::get_pure_commitment(&comm_with_witness);
    let mut transcript: Vec<u8> = b"hello".to_vec();
    MockPcs::<F>::write_commitment(&comm, &mut transcript).unwrap();
    let rmms = vec![rmm.clone()];
    let _batch_comm = MockPcs::<F>::batch_commit(&pp, rmms).unwrap();
    let eval = F::from_v(0);
    let point = vec![F::from_v(0); 4];
    let proof =
        MockPcs::<F>::open(&pp, &poly, &comm_with_witness, &point, &eval, &mut transcript).unwrap();
    MockPcs::<F>::verify(&vp, &comm, &point, &eval, &proof, &mut transcript).unwrap();
    let rounds = vec![(&comm_with_witness, vec![(point.clone(), vec![eval])])];
    let _batch_proof = MockPcs::<F>::batch_open(&pp, rounds, &mut transcript).unwrap();
    let polys = vec![poly.clone()];
    let _simple_proof = MockPcs::<F>::simple_batch_open(
        &pp,
        &polys,
        &comm_with_witness,
        &point,
        &[eval],
        &mut transcript,
    )
    .unwrap();
    let batch_rounds = vec![(comm, vec![(4, (point.clone(), vec![eval]))])];
    let _ = MockPcs::<F>::batch_verify(&vp, batch_rounds, &_batch_proof, &mut transcript);
    let _ = MockPcs::<F>::simple_batch_verify(
        &vp,
        &comm,
        &point,
        &[eval],
        &_simple_proof,
        &mut transcript,
    );
    let _ = MockPcs::<F>::get_arc_mle_witness_from_commitment::<Vec<u64>>(&comm_with_witness);
}

#[test]
fn mock_pcs_leaves_the_transcript_alone() {
    let mut transcript: Vec<u8> = b"hello".to_vec();
    let point = vec![F::from_v(1), F::from_v(2)];
    let eval = F::from_v(3);
    let poly: Vec<u64> = vec![1, 2, 3, 4];
    MockPcs::<F>::write_commitment(&(), &mut transcript).unwrap();
    MockPcs::<F>::open(&(), &poly, &(), &point, &eval, &mut transcript).unwrap();
    MockPcs::<F>::verify(&(), &(), &point, &eval, &(), &mut transcript).unwrap();
    assert_eq!(transcript, b"hello".to_vec());
}

#[test]
fn mock_pcs_accepts_any_proof() {
    let mut transcript: Vec<u8> = Vec::new();
    let point = vec![F::from_v(5); 3];
    let evals = vec![F::from_v(6), F::from_v(7)];
    assert!(MockPcs::<F>::simple_batch_verify(&(), &(), &point, &evals, &(), &mut transcript).is_ok());
    assert!(MockPcs::<F>::batch_verify(&(), vec![], &(), &mut transcript).is_ok());
    assert!(MockPcs::<F>::batch_open(&(), vec![], &mut transcript).is_ok());
    assert!(MockPcs::<F>::batch_commit::<Vec<u64>>(&(), vec![]).is_ok());
}

#[test]
fn mock_pcs_setup_and_trim_succeed_for_any_size() {
    assert!(MockPcs::<F>::setup(0, SecurityLevel::Conjecture100bits).is_ok());
    assert!(MockPcs::<F>::setup(usize::MAX, SecurityLevel::Conjecture100bits).is_ok());
    assert!(MockPcs::<F>::trim((), 1 << 20).is_ok());
}

#[test]
fn mock_pcs_carries_no_witness() {
    let witness = MockPcs::<F>::get_arc_mle_witness_from_commitment::<Vec<u64>>(&());
    assert!(witness.is_empty());
}

#[test]
fn unit_fri_param_asks_one_pow_bit() {
    assert_eq!(().get_pow_bits_by_level(0u8), 1);
    assert_eq!(().get_pow_bits_by_level("any level"), 1);
}
