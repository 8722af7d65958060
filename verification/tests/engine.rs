use mpc_engine::field::{fe_add, fe_sub, fe_mul, fe_reduce, FIELD_MODULUS};
use mpc_engine::cipher::{Cipher, get_public_key, keystream_elem};
use mpc_engine::rng::derive_client_private_key;
use mpc_engine::cluster::{
    Cluster, NodeInfo, PrivNodeInfo, get_partner_peer_numbers, combine_contributions,
    node_secret_exec,
};
use mpc_engine::circuit::{Circuit, Gate, GateOp, check_circuit};
use mpc_engine::execution::{
    MPCExecutionBuilder, MPCInputs, MpcInputsConfig, validate_round_shares,
};
use mpc_engine::errors::MpcError;
use rand_chacha::rand_core::{Rng, SeedableRng};

fn two_node_cluster(local_peer: u8) -> Cluster {
    let partner_peer_numbers = get_partner_peer_numbers(local_peer, 1);
    let partner_peer_number = partner_peer_numbers[0];
    let node_info = PrivNodeInfo::new_from_const(local_peer, 9100);
    let partner_node_info = NodeInfo::new_from_const(partner_peer_number, 9100);
    Cluster::new(node_info, vec![partner_node_info]).unwrap()
}

fn add_together_circuit() -> Circuit {
    Circuit {
        num_inputs: 2,
        gates: vec![Gate { op: GateOp::Add, left: 0, right: 1 }],
        outputs: vec![2],
    }
}

/// The full protocol for one local peer: DKG, client encryption, execution,
/// client decryption. Returns (cluster key, ciphertext, raw result, plaintext).
fn run_full_protocol(local_peer: u8, session_id: u64) -> (u64, Vec<u64>, Vec<u64>, u64) {
    let mut cluster = two_node_cluster(local_peer);
    let cluster_pubkey = cluster.gen_key_shares().unwrap();

    let client_priv_key = derive_client_private_key(&[42; 32]);
    let client_pub_key = get_public_key(client_priv_key);

    let cipher = Cipher::new_with_client_from_key_pair(client_priv_key, cluster_pubkey);
    let plaintext = vec![1, 2];
    let nonce = 20;
    let ciphertext = cipher.encrypt(plaintext, nonce);

    let base_field_inputs = vec![client_pub_key, nonce, ciphertext[0], ciphertext[1]];
    let inputs = MPCInputs::from_cluster(
        &cluster,
        base_field_inputs,
        MpcInputsConfig { uses_shared_encryption: true, uses_mxe_encryption: false },
    );

    let mpc_execution = MPCExecutionBuilder::default()
        .cluster(&mut cluster)
        .inputs(inputs)
        .circuit(add_together_circuit())
        .build(session_id)
        .unwrap();

    let res = mpc_execution.run().unwrap();
    let output_nonce = res[1];
    let output_cipher = res[2];
    let out_plaintext = cipher.decrypt(vec![output_cipher], output_nonce)[0];
    (cluster_pubkey, ciphertext, res, out_plaintext)
}

#[test]
fn field_ops_exact_values() {
    assert_eq!(fe_add(3, 4), 7);
    assert_eq!(fe_add(FIELD_MODULUS - 1, 1), 0);
    assert_eq!(fe_sub(3, 4), FIELD_MODULUS - 1);
    assert_eq!(fe_sub(10, 4), 6);
    assert_eq!(fe_mul(3, 4), 12);
    assert_eq!(fe_mul(FIELD_MODULUS - 1, 2), FIELD_MODULUS - 2);
    assert_eq!(fe_reduce(FIELD_MODULUS), 0);
    assert_eq!(fe_reduce(FIELD_MODULUS + 5), 5);
}

#[test]
fn partner_peer_numbers_skip_local() {
    assert_eq!(get_partner_peer_numbers(0, 1), vec![1]);
    assert_eq!(get_partner_peer_numbers(1, 1), vec![0]);
    assert_eq!(get_partner_peer_numbers(2, 4), vec![0, 1, 3, 4]);
}

#[test]
fn encrypt_decrypt_roundtrip() {
    let cipher = Cipher { key: 123456789 };
    let plaintext = vec![1, 2, 99, FIELD_MODULUS - 1, 0];
    let nonce = 20;
    let ct = cipher.encrypt(plaintext.clone(), nonce);
    assert_eq!(ct.len(), plaintext.len());
    assert_ne!(ct, plaintext);
    assert_eq!(cipher.decrypt(ct, nonce), plaintext);
}

#[test]
fn decrypt_with_wrong_nonce_gives_garbage_not_error() {
    let cipher = Cipher { key: 77 };
    let ct = cipher.encrypt(vec![5, 6], 20);
    let wrong = cipher.decrypt(ct, 21);
    assert_ne!(wrong, vec![5, 6]);
}

#[test]
fn client_key_derivation_is_seed_deterministic() {
    let k1 = derive_client_private_key(&[42; 32]);
    let k2 = derive_client_private_key(&[42; 32]);
    assert_eq!(k1, k2);
    let k3 = derive_client_private_key(&[43; 32]);
    assert_ne!(k1, k3);
}

#[test]
fn client_key_matches_generator_stream() {
    // The trusted wrapper must hand back the seeded ChaCha12 word stream,
    // not anything derived from the seed bytes alone.
    let mut rng = rand_chacha::ChaCha12Rng::from_seed([42; 32]);
    let expected = rng.next_u64() % FIELD_MODULUS;
    assert_eq!(derive_client_private_key(&[42; 32]), expected);
}

#[test]
fn cluster_rejects_duplicate_peer_number() {
    let node_info = PrivNodeInfo::new_from_const(0, 9100);
    let partner = NodeInfo::new_from_const(0, 9100);
    assert!(matches!(Cluster::new(node_info, vec![partner]), Err(MpcError::ConfigurationError)));
}

#[test]
fn cluster_rejects_gap_in_peer_numbers() {
    let node_info = PrivNodeInfo::new_from_const(0, 9100);
    let partner = NodeInfo::new_from_const(2, 9100);
    assert!(matches!(Cluster::new(node_info, vec![partner]), Err(MpcError::ConfigurationError)));
}

#[test]
fn cluster_reports_unreachable_partner() {
    let node_info = PrivNodeInfo::new_from_const(0, 9100);
    let partner = NodeInfo::new_from_const(1, 0);
    assert!(matches!(
        Cluster::new(node_info, vec![partner]),
        Err(MpcError::ConnectivityError { peer: 1 })
    ));
}

#[test]
fn dkg_all_members_agree() {
    let mut a = two_node_cluster(0);
    let mut b = two_node_cluster(1);
    let key_a = a.gen_key_shares().unwrap();
    let key_b = b.gen_key_shares().unwrap();
    assert_eq!(key_a, key_b);
    assert_eq!(a.public_key, Some(key_a));
}

#[test]
fn dkg_rejects_malformed_contribution() {
    let good = node_secret_exec(0);
    assert_eq!(
        combine_contributions(&vec![good, FIELD_MODULUS, good], 3),
        Err(MpcError::ProtocolError { peer: 1, round: 0 })
    );
    assert_eq!(
        combine_contributions(&vec![good, good], 3),
        Err(MpcError::ConfigurationError)
    );
}

#[test]
fn malformed_share_fails_round_with_partner_and_round() {
    let shares = vec![5, FIELD_MODULUS + 7, 9];
    assert_eq!(
        validate_round_shares(&shares, 3),
        Err(MpcError::ProtocolError { peer: 1, round: 3 })
    );
    assert_eq!(validate_round_shares(&vec![5, 9], 3), Ok(()));
}

#[test]
fn add_together_end_to_end() {
    let (_, _, _, plaintext) = run_full_protocol(0, 124);
    assert_eq!(plaintext, 3);
    let (_, _, _, plaintext) = run_full_protocol(1, 124);
    assert_eq!(plaintext, 3);
}

#[test]
fn fixed_seed_runs_are_identical() {
    let (key1, ct1, res1, pt1) = run_full_protocol(0, 124);
    let (key2, ct2, res2, pt2) = run_full_protocol(0, 124);
    assert_eq!(key1, key2);
    assert_eq!(ct1, ct2);
    assert_eq!(res1, res2);
    assert_eq!(pt1, pt2);
}

#[test]
fn inputs_bound_to_other_cluster_are_rejected() {
    let mut cluster_a = two_node_cluster(0);
    cluster_a.gen_key_shares().unwrap();

    // Cluster B has a different membership: three nodes instead of two.
    let partners_b = vec![NodeInfo::new_from_const(1, 9100), NodeInfo::new_from_const(2, 9100)];
    let mut cluster_b = Cluster::new(PrivNodeInfo::new_from_const(0, 9100), partners_b).unwrap();
    cluster_b.gen_key_shares().unwrap();

    let inputs = MPCInputs::from_cluster(
        &cluster_a,
        vec![1, 2, 3, 4],
        MpcInputsConfig { uses_shared_encryption: true, uses_mxe_encryption: false },
    );
    let r = MPCExecutionBuilder::default()
        .cluster(&mut cluster_b)
        .inputs(inputs)
        .circuit(add_together_circuit())
        .build(124);
    assert!(matches!(r, Err(MpcError::ConfigurationError)));
}

#[test]
fn conflicting_encryption_modes_are_rejected() {
    let mut cluster = two_node_cluster(0);
    cluster.gen_key_shares().unwrap();
    for (shared, mxe) in [(true, true), (false, false)] {
        let inputs = MPCInputs::from_cluster(
            &cluster,
            vec![1, 2],
            MpcInputsConfig { uses_shared_encryption: shared, uses_mxe_encryption: mxe },
        );
        let r = MPCExecutionBuilder::default()
            .cluster(&mut cluster)
            .inputs(inputs)
            .circuit(add_together_circuit())
            .build(7);
        assert!(matches!(r, Err(MpcError::ConfigurationError)));
    }
}

#[test]
fn builder_rejects_missing_pieces_and_missing_dkg() {
    let r = MPCExecutionBuilder::default().build(1);
    assert!(matches!(r, Err(MpcError::ConfigurationError)));

    // Cluster attached but key generation never ran.
    let mut cluster = two_node_cluster(0);
    let inputs = MPCInputs::from_cluster(
        &cluster,
        vec![1, 2, 3, 4],
        MpcInputsConfig { uses_shared_encryption: true, uses_mxe_encryption: false },
    );
    let r = MPCExecutionBuilder::default()
        .cluster(&mut cluster)
        .inputs(inputs)
        .circuit(add_together_circuit())
        .build(1);
    assert!(matches!(r, Err(MpcError::ConfigurationError)));
}

#[test]
fn malformed_circuit_fails_fast() {
    let bad = Circuit {
        num_inputs: 2,
        gates: vec![Gate { op: GateOp::Add, left: 0, right: 5 }],
        outputs: vec![2],
    };
    assert!(!check_circuit(&bad));

    let mut cluster = two_node_cluster(0);
    cluster.gen_key_shares().unwrap();
    let inputs = MPCInputs::from_cluster(
        &cluster,
        vec![1, 2, 3, 4],
        MpcInputsConfig { uses_shared_encryption: true, uses_mxe_encryption: false },
    );
    let bad = Circuit {
        num_inputs: 2,
        gates: vec![Gate { op: GateOp::Add, left: 0, right: 5 }],
        outputs: vec![2],
    };
    let r = MPCExecutionBuilder::default()
        .cluster(&mut cluster)
        .inputs(inputs)
        .circuit(bad)
        .build(9);
    assert!(matches!(r, Err(MpcError::CircuitError)));
}

#[test]
fn input_width_mismatch_fails_fast() {
    let mut cluster = two_node_cluster(0);
    cluster.gen_key_shares().unwrap();
    let inputs = MPCInputs::from_cluster(
        &cluster,
        vec![1, 2, 3],
        MpcInputsConfig { uses_shared_encryption: true, uses_mxe_encryption: false },
    );
    let r = MPCExecutionBuilder::default()
        .cluster(&mut cluster)
        .inputs(inputs)
        .circuit(add_together_circuit())
        .build(9);
    assert!(matches!(r, Err(MpcError::CircuitError)));
}

#[test]
fn execution_scoped_mode_evaluates_directly() {
    let mut cluster = two_node_cluster(0);
    cluster.gen_key_shares().unwrap();
    let inputs = MPCInputs::from_cluster(
        &cluster,
        vec![3, 4],
        MpcInputsConfig { uses_shared_encryption: false, uses_mxe_encryption: true },
    );
    let circuit = Circuit {
        num_inputs: 2,
        gates: vec![Gate { op: GateOp::Mul, left: 0, right: 1 }],
        outputs: vec![2],
    };
    let execution = MPCExecutionBuilder::default()
        .cluster(&mut cluster)
        .inputs(inputs)
        .circuit(circuit)
        .build(5)
        .unwrap();
    assert_eq!(execution.run().unwrap(), vec![12]);
}

#[test]
fn mixed_gates_compute_expected_value() {
    // (a + b) * c with a=2, b=3, c=4 gives 20.
    let mut cluster = two_node_cluster(0);
    cluster.gen_key_shares().unwrap();
    let inputs = MPCInputs::from_cluster(
        &cluster,
        vec![2, 3, 4],
        MpcInputsConfig { uses_shared_encryption: false, uses_mxe_encryption: true },
    );
    let circuit = Circuit {
        num_inputs: 3,
        gates: vec![
            Gate { op: GateOp::Add, left: 0, right: 1 },
            Gate { op: GateOp::Mul, left: 3, right: 2 },
        ],
        outputs: vec![4],
    };
    let execution = MPCExecutionBuilder::default()
        .cluster(&mut cluster)
        .inputs(inputs)
        .circuit(circuit)
        .build(6)
        .unwrap();
    assert_eq!(execution.run().unwrap(), vec![20]);
}

#[test]
fn passthrough_circuit_preserves_declared_output_order() {
    let cipher = Cipher { key: 9 };
    let empty: Vec<u64> = vec![];
    assert_eq!(cipher.decrypt(cipher.encrypt(empty.clone(), 4), 4), empty);

    let mut cluster = two_node_cluster(0);
    cluster.gen_key_shares().unwrap();
    let inputs = MPCInputs::from_cluster(
        &cluster,
        vec![8, 15],
        MpcInputsConfig { uses_shared_encryption: false, uses_mxe_encryption: true },
    );
    let circuit = Circuit { num_inputs: 2, gates: vec![], outputs: vec![1, 0] };
    let execution = MPCExecutionBuilder::default()
        .cluster(&mut cluster)
        .inputs(inputs)
        .circuit(circuit)
        .build(2)
        .unwrap();
    assert_eq!(execution.run().unwrap(), vec![15, 8]);
}

#[test]
fn three_node_cluster_end_to_end() {
    let partners = vec![NodeInfo::new_from_const(0, 9100), NodeInfo::new_from_const(2, 9100)];
    let mut cluster = Cluster::new(PrivNodeInfo::new_from_const(1, 9100), partners).unwrap();
    let cluster_pubkey = cluster.gen_key_shares().unwrap();

    let client_priv_key = derive_client_private_key(&[7; 32]);
    let client_pub_key = get_public_key(client_priv_key);
    let cipher = Cipher::new_with_client_from_key_pair(client_priv_key, cluster_pubkey);
    let ciphertext = cipher.encrypt(vec![10, 32], 5);

    let inputs = MPCInputs::from_cluster(
        &cluster,
        vec![client_pub_key, 5, ciphertext[0], ciphertext[1]],
        MpcInputsConfig { uses_shared_encryption: true, uses_mxe_encryption: false },
    );
    let res = MPCExecutionBuilder::default()
        .cluster(&mut cluster)
        .inputs(inputs)
        .circuit(add_together_circuit())
        .build(55)
        .unwrap()
        .run()
        .unwrap();
    assert_eq!(res.len(), 3);
    assert_eq!(res[0], client_pub_key);
    assert_eq!(cipher.decrypt(vec![res[2]], res[1])[0], 42);
}

#[test]
fn keystream_differs_by_position_and_nonce() {
    let a = keystream_elem(9, 20, 0);
    let b = keystream_elem(9, 20, 1);
    let c = keystream_elem(9, 21, 0);
    assert_ne!(a, b);
    assert_ne!(a, c);
}
