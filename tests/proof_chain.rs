use blake2::digest::consts::U32;
use blake2::{Blake2b, Digest};
use prover::chain::{
    prove_final, prove_final_with_hash, prove_genesis, prove_validator_set_change, ChainError, DriverError,
    GenesisConfig, ProofChain,
};
use prover::hash::{concat_keys, HashLeafStatement, ValidatorSetHash};
use prover::layout::{
    bytes_to_bits, committee_from_storage, pad_committee, serialize_committee,
    ValidatorSetInStorageTarget, MAX_VALIDATOR_COUNT, STORAGE_SIZE,
};
use prover::statements::{
    bytes_equal, committees_equal, compose_transition, read_le_u64, CompositionError,
    EpochProof, Extraction, FinalityStatement, InclusionStatement,
    NextValidatorSet, NextValidatorSetNonHashed,
};
use prover::witness::{
    bytes_to_nibbles, message_storage_address, next_session_keys_storage_address,
    parse_rpc_block_finality_proof, parse_rpc_inclusion_proof, RpcBranchNode, RpcFinalityProof,
    RpcInclusionProof, RpcPreCommit,
};

fn key(seed: u8) -> Vec<u8> {
    (0..32u8).map(|i| seed.wrapping_mul(31).wrapping_add(i)).collect()
}

fn digest(seed: u8) -> Vec<u8> {
    vec![seed; 32]
}

fn blake2b256(data: &[u8]) -> Vec<u8> {
    Blake2b::<U32>::digest(data).to_vec()
}

fn commitment(committee: &[Vec<u8>]) -> Vec<u8> {
    let mut keys = committee.concat();
    keys.resize(32 * MAX_VALIDATOR_COUNT, 0);
    blake2b256(&keys)
}

fn vote_message(block_hash: &[u8], set_id: u64) -> Vec<u8> {
    let mut m = vec![1u8];
    m.extend_from_slice(block_hash);
    m.extend_from_slice(&7u32.to_le_bytes());
    m.extend_from_slice(&3u64.to_le_bytes());
    m.extend_from_slice(&set_id.to_le_bytes());
    assert_eq!(m.len(), 53);
    m
}

fn epoch_inputs(
    signer_hash: &[u8],
    block: &[u8],
    set_id: u64,
    committee: &Vec<Vec<u8>>,
) -> NextValidatorSet {
    let record = serialize_committee(committee);
    NextValidatorSet {
        current_epoch_block_finality: FinalityStatement {
            validator_set_hash: signer_hash.to_vec(),
            message: vote_message(block, set_id),
        },
        next_validator_set_inclusion_proof: InclusionStatement {
            block_hash: block.to_vec(),
            storage_item_hash: blake2b256(&record),
        },
        next_validator_set_storage_data: record,
    }
}

fn non_hashed(step: &NextValidatorSet) -> NextValidatorSetNonHashed {
    NextValidatorSetNonHashed {
        current_epoch_block_finality: FinalityStatement {
            validator_set_hash: step.current_epoch_block_finality.validator_set_hash.clone(),
            message: step.current_epoch_block_finality.message.clone(),
        },
        next_validator_set_inclusion_proof: InclusionStatement {
            block_hash: step.next_validator_set_inclusion_proof.block_hash.clone(),
            storage_item_hash: step.next_validator_set_inclusion_proof.storage_item_hash.clone(),
        },
        next_validator_set_storage_data: step.next_validator_set_storage_data.clone(),
    }
}

#[test]
fn bits_are_most_significant_first() {
    let bits = bytes_to_bits(&vec![0b1000_0001u8, 0x40]);
    assert_eq!(
        bits,
        vec![
            true, false, false, false, false, false, false, true, false, true, false, false,
            false, false, false, false
        ]
    );
}

#[test]
fn bit_round_trip_for_every_committee_size() {
    for n in 1..=MAX_VALIDATOR_COUNT {
        let committee: Vec<Vec<u8>> = (0..n).map(|i| key(i as u8 + 1)).collect();
        let blob = serialize_committee(&committee);
        assert_eq!(blob.len(), STORAGE_SIZE);
        assert_eq!(blob[0], (4 * n) as u8);
        let parsed = ValidatorSetInStorageTarget { bits: bytes_to_bits(&blob) }
            .into_grandpa_authority_keys();
        let padded = pad_committee(&committee);
        assert_eq!(parsed, padded);
        assert_eq!(&parsed[..n], &committee[..]);
        for seat in n..MAX_VALIDATOR_COUNT {
            assert_eq!(parsed[seat], vec![0u8; 32]);
        }
        assert_eq!(committee_from_storage(&blob), padded);
    }
}

#[test]
fn only_the_consensus_key_of_a_record_is_kept() {
    let mut blob = serialize_committee(&vec![key(9)]);
    // session, babe, im-online and authority discovery keys of seat 0
    for p in 1..65 {
        blob[p] = 0xff;
    }
    for p in 97..161 {
        blob[p] = 0xee;
    }
    let parsed = ValidatorSetInStorageTarget { bits: bytes_to_bits(&blob) }
        .into_grandpa_authority_keys();
    assert_eq!(parsed[0], key(9));
    assert_eq!(parsed[1], vec![0u8; 32]);
}

#[test]
fn reads_little_endian_set_id() {
    let m = vote_message(&digest(5), 0x0102_0304_0506_0708);
    assert_eq!(read_le_u64(&m, 45), 0x0102_0304_0506_0708);
}

#[test]
fn extraction_binds_block_and_record() {
    let committee = vec![key(1), key(2), key(3)];
    let step = epoch_inputs(&digest(10), &digest(20), 4, &committee);
    let x = non_hashed(&step).prove().unwrap();
    assert_eq!(x.prior_committee_hash, digest(10));
    assert_eq!(x.epoch_id, 4);
    assert_eq!(x.next_committee, pad_committee(&committee));
    let record_hash = blake2b256(&step.next_validator_set_storage_data);
    let y = non_hashed(&step).prove_with_hash(&record_hash).unwrap();
    assert_eq!(y.next_committee, pad_committee(&committee));
}

#[test]
fn tampered_record_is_rejected() {
    let committee = vec![key(1), key(2), key(3)];
    let mut step = epoch_inputs(&digest(10), &digest(20), 4, &committee);
    step.next_validator_set_storage_data[100] ^= 1;
    assert_eq!(non_hashed(&step).prove().err(), Some(CompositionError::StorageHashMismatch));
    assert_eq!(step.prove().err(), Some(CompositionError::StorageHashMismatch));
    let tampered_hash = blake2b256(&step.next_validator_set_storage_data);
    assert_eq!(
        non_hashed(&step).prove_with_hash(&tampered_hash).err(),
        Some(CompositionError::StorageHashMismatch)
    );
}

#[test]
fn cross_block_witnesses_are_rejected() {
    let committee = vec![key(1), key(2), key(3)];
    let mut step = epoch_inputs(&digest(10), &digest(20), 4, &committee);
    step.next_validator_set_inclusion_proof.block_hash = digest(21);
    assert_eq!(non_hashed(&step).prove().err(), Some(CompositionError::BlockHashMismatch));
    assert_eq!(step.prove().err(), Some(CompositionError::BlockHashMismatch));
}

#[test]
fn hash_leaf_commits_to_the_keys_in_seat_order() {
    let set = pad_committee(&vec![key(1), key(2)]);
    let keys = concat_keys(&set);
    assert_eq!(keys.len(), 32 * MAX_VALIDATOR_COUNT);
    assert_eq!(&keys[..32], &key(1)[..]);
    assert_eq!(&keys[32..64], &key(2)[..]);
    let leaf = ValidatorSetHash { validator_set: set.clone() }.prove();
    assert_eq!(leaf.hash, blake2b256(&keys));
    assert_eq!(leaf.hash, commitment(&[key(1), key(2)]));
    assert_ne!(leaf.hash, commitment(&[key(2), key(1)]));
    assert_eq!(leaf.validator_set, set);
}

#[test]
fn transition_requires_equal_committees() {
    let committee = vec![key(1), key(2)];
    let extraction = Extraction {
        prior_committee_hash: digest(1),
        epoch_id: 8,
        next_committee: pad_committee(&committee),
    };
    let leaf = HashLeafStatement { hash: digest(2), validator_set: pad_committee(&committee) };
    let p = compose_transition(&leaf, &extraction).unwrap();
    assert_eq!(p.prior_committee_hash, digest(1));
    assert_eq!(p.next_committee_hash, digest(2));
    assert_eq!(p.epoch_id, 8);
    let other = HashLeafStatement {
        hash: digest(2),
        validator_set: pad_committee(&vec![key(2), key(1)]),
    };
    assert_eq!(
        compose_transition(&other, &extraction).err(),
        Some(CompositionError::CommitteeMismatch)
    );
}

#[test]
fn genesis_starts_from_the_configured_committee() {
    let genesis_committee = vec![key(1), key(2), key(3)];
    let config = GenesisConfig::new(&genesis_committee, 0);
    assert_eq!(config.committee_hash, commitment(&genesis_committee));
    assert_eq!(config.starting_epoch_id, 0);
    let step = epoch_inputs(&config.committee_hash, &digest(20), 0, &genesis_committee);
    let chain = prove_genesis(&config, &step).unwrap();
    assert_eq!(chain.len(), 1);
    assert_eq!(chain.get(0).prior_committee_hash, commitment(&genesis_committee));
    assert_eq!(chain.get(0).next_committee_hash, commitment(&genesis_committee));
    assert_eq!(chain.get(0).epoch_id, 0);
}

#[test]
fn genesis_refuses_other_committee_or_epoch() {
    let committee = vec![key(1)];
    let config = GenesisConfig::new(&committee, 0);
    let step = epoch_inputs(&digest(101), &digest(20), 0, &committee);
    assert_eq!(
        prove_genesis(&config, &step).err(),
        Some(DriverError::Chain(ChainError::GenesisCommitteeMismatch))
    );
    let step = epoch_inputs(&config.committee_hash, &digest(20), 1, &committee);
    assert_eq!(
        prove_genesis(&config, &step).err(),
        Some(DriverError::Chain(ChainError::GenesisEpochMismatch))
    );
    let mut step = epoch_inputs(&config.committee_hash, &digest(20), 0, &committee);
    step.next_validator_set_inclusion_proof.storage_item_hash = digest(31);
    assert_eq!(
        prove_genesis(&config, &step).err(),
        Some(DriverError::Composition(CompositionError::StorageHashMismatch))
    );
}

#[test]
fn end_to_end_committee_update() {
    let genesis_committee = vec![key(1), key(2), key(3)];
    let updated_committee = vec![key(1), key(42), key(3)];
    let config = GenesisConfig::new(&genesis_committee, 0);
    let genesis_hash = config.committee_hash.clone();
    let first = epoch_inputs(&genesis_hash, &digest(20), 0, &genesis_committee);
    let mut chain = prove_genesis(&config, &first).unwrap();
    let genesis_proof = chain.last().duplicate();
    assert_eq!(genesis_proof.epoch_id, 0);

    let second = epoch_inputs(&genesis_proof.next_committee_hash, &digest(21), 1, &updated_committee);
    prove_validator_set_change(&mut chain, &second).unwrap();
    assert_eq!(chain.len(), 2);
    let last = chain.last();
    assert_eq!(last.next_committee_hash, commitment(&updated_committee));
    assert_ne!(last.next_committee_hash, genesis_hash);
    assert_eq!(last.epoch_id, 1);
    assert_eq!(chain.get(0).next_committee_hash, chain.get(1).prior_committee_hash);

    let message = b"outbound message".to_vec();
    let finality = FinalityStatement {
        validator_set_hash: commitment(&updated_committee),
        message: vote_message(&digest(22), 2),
    };
    let inclusion = InclusionStatement {
        block_hash: digest(22),
        storage_item_hash: blake2b256(&message),
    };
    let statement = prove_final(&chain, &finality, &inclusion, &message).unwrap();
    assert_eq!(statement.genesis_committee_hash, genesis_hash);
    assert_eq!(statement.block_hash, digest(22));
    assert_eq!(statement.message, message);
}

#[test]
fn chain_refuses_non_adjacent_steps() {
    let committee = vec![key(1), key(2)];
    let config = GenesisConfig::new(&committee, 5);
    let first = epoch_inputs(&config.committee_hash, &digest(20), 5, &committee);
    let mut chain = prove_genesis(&config, &first).unwrap();
    let end = chain.last().next_committee_hash.clone();

    let wrong_signer = epoch_inputs(&digest(100), &digest(21), 6, &committee);
    assert_eq!(
        prove_validator_set_change(&mut chain, &wrong_signer).err(),
        Some(DriverError::Chain(ChainError::CommitteeMismatch))
    );
    let wrong_epoch = epoch_inputs(&end, &digest(21), 7, &committee);
    assert_eq!(
        prove_validator_set_change(&mut chain, &wrong_epoch).err(),
        Some(DriverError::Chain(ChainError::EpochMismatch))
    );
    let mut bad_block = epoch_inputs(&end, &digest(21), 6, &committee);
    bad_block.next_validator_set_inclusion_proof.block_hash = digest(22);
    assert_eq!(
        prove_validator_set_change(&mut chain, &bad_block).err(),
        Some(DriverError::Composition(CompositionError::BlockHashMismatch))
    );
    assert_eq!(chain.len(), 1);

    let direct = EpochProof {
        prior_committee_hash: end.clone(),
        next_committee_hash: digest(103),
        epoch_id: 6,
    };
    let copy = direct.duplicate();
    assert_eq!(chain.step(direct), Ok(()));
    assert_eq!(chain.len(), 2);
    assert_eq!(chain.last().next_committee_hash, copy.next_committee_hash);
    let stale = EpochProof {
        prior_committee_hash: digest(103),
        next_committee_hash: digest(104),
        epoch_id: 6,
    };
    assert_eq!(chain.step(stale), Err(ChainError::EpochMismatch));
    assert_eq!(chain.len(), 2);
}

#[test]
fn final_statement_checks_its_witnesses() {
    let committee = vec![key(1)];
    let config = GenesisConfig::new(&committee, 0);
    let first = epoch_inputs(&config.committee_hash, &digest(20), 0, &committee);
    let chain = ProofChain::genesis(&config, first.prove().unwrap()).unwrap();
    let end = chain.last().next_committee_hash.clone();
    let message = vec![1u8, 2, 3];
    let inclusion = InclusionStatement { block_hash: digest(22), storage_item_hash: digest(50) };

    let finality = FinalityStatement {
        validator_set_hash: digest(100),
        message: vote_message(&digest(22), 1),
    };
    assert_eq!(
        prove_final_with_hash(&chain, &finality, &inclusion, &message, &digest(50)).err(),
        Some(ChainError::CommitteeMismatch)
    );
    let finality = FinalityStatement {
        validator_set_hash: end.clone(),
        message: vote_message(&digest(23), 1),
    };
    assert_eq!(
        prove_final_with_hash(&chain, &finality, &inclusion, &message, &digest(50)).err(),
        Some(ChainError::BlockHashMismatch)
    );
    let finality = FinalityStatement {
        validator_set_hash: end.clone(),
        message: vote_message(&digest(22), 1),
    };
    assert_eq!(
        prove_final_with_hash(&chain, &finality, &inclusion, &message, &digest(51)).err(),
        Some(ChainError::MessageHashMismatch)
    );
    assert!(prove_final_with_hash(&chain, &finality, &inclusion, &message, &digest(50)).is_ok());
    assert_eq!(
        prove_final(&chain, &finality, &inclusion, &message).err(),
        Some(ChainError::MessageHashMismatch)
    );
    let proven = InclusionStatement { block_hash: digest(22), storage_item_hash: blake2b256(&message) };
    assert_eq!(prove_final(&chain, &finality, &proven, &message).unwrap().message, message);
}

#[test]
fn equality_helpers() {
    assert!(bytes_equal(&vec![1, 2, 3], &vec![1, 2, 3]));
    assert!(!bytes_equal(&vec![1, 2, 3], &vec![1, 2]));
    assert!(!bytes_equal(&vec![1, 2, 3], &vec![1, 2, 4]));
    assert!(committees_equal(&vec![key(1)], &vec![key(1)]));
    assert!(!committees_equal(&vec![key(1)], &vec![key(2)]));
    assert!(!committees_equal(&vec![key(1)], &vec![]));
}

#[test]
fn inclusion_proof_branches_turn_leaf_to_root() {
    let proof = RpcInclusionProof {
        block_header: vec![9, 9],
        branch_nodes_data: vec![
            RpcBranchNode { data: vec![1], target_child: 0xa },
            RpcBranchNode { data: vec![2], target_child: 0xb },
            RpcBranchNode { data: vec![3], target_child: 0xc },
        ],
        leaf_node_data: vec![7],
        stored_data: vec![8],
    };
    let w = parse_rpc_inclusion_proof(proof, vec![1, 2]);
    assert_eq!(w.block_header_data, vec![9, 9]);
    assert_eq!(w.leaf_node_data, vec![7]);
    assert_eq!(w.address_nibbles, vec![1, 2]);
    let order: Vec<(Vec<u8>, u8)> =
        w.branch_node_data.iter().map(|n| (n.data.clone(), n.child_nibble)).collect();
    assert_eq!(order, vec![(vec![3], 0xc), (vec![2], 0xb), (vec![1], 0xa)]);
}

#[test]
fn finality_proof_converts_field_by_field() {
    let proof = RpcFinalityProof {
        validator_set: vec![key(1)],
        pre_commits: vec![RpcPreCommit { public_key: key(1), signature: vec![5; 64] }],
        message: vote_message(&digest(3), 2),
    };
    let f = parse_rpc_block_finality_proof(proof);
    assert_eq!(f.validator_set, vec![key(1)]);
    assert_eq!(f.pre_commits.len(), 1);
    assert_eq!(f.pre_commits[0].public_key, key(1));
    assert_eq!(f.pre_commits[0].signature, vec![5; 64]);
    assert_eq!(f.message, vote_message(&digest(3), 2));
}

#[test]
fn storage_addresses_are_nibbles_of_keys() {
    assert_eq!(bytes_to_nibbles(&vec![0xea, 0x31]), vec![0xe, 0xa, 0x3, 0x1]);
    let next_keys: [u8; 64] = [
        0xe, 0xa, 0x3, 0x1, 0xe, 0x1, 0x7, 0x1, 0xc, 0x2, 0xc, 0xd, 0x7, 0x9, 0x0, 0xa, 0x2, 0x3,
        0x3, 0x5, 0x0, 0xb, 0x5, 0xe, 0x5, 0x9, 0x3, 0xe, 0xd, 0x8, 0x8, 0x2, 0x7, 0xd, 0x9, 0xf,
        0xe, 0x3, 0x7, 0x3, 0x7, 0x0, 0xa, 0xc, 0x3, 0x9, 0x0, 0x7, 0x7, 0x9, 0xf, 0x3, 0x5, 0x7,
        0x6, 0x3, 0xd, 0x9, 0x8, 0x1, 0x0, 0x6, 0xe, 0x8,
    ];
    let message: [u8; 64] = [
        0xe, 0xa, 0x3, 0x1, 0xe, 0x1, 0x7, 0x1, 0xc, 0x2, 0xc, 0xd, 0x7, 0x9, 0x0, 0xa, 0x2, 0x3,
        0x3, 0x5, 0x0, 0xb, 0x5, 0xe, 0x5, 0x9, 0x3, 0xe, 0xd, 0x8, 0x8, 0x2, 0xd, 0xf, 0x5, 0x0,
        0x9, 0x3, 0x1, 0x0, 0xb, 0xc, 0x6, 0x5, 0x5, 0xb, 0xb, 0xf, 0x7, 0x5, 0xa, 0x5, 0xb, 0x5,
        0x6, 0x3, 0xf, 0xc, 0x3, 0xc, 0x8, 0xe, 0xe, 0xe,
    ];
    assert_eq!(next_session_keys_storage_address(), next_keys.to_vec());
    assert_eq!(message_storage_address(), message.to_vec());
}
