use bridge::attestation::{block_hash, verify_inst};
use bridge::instruction::decode_instruction;
use bridge::merkle::{compute_root, instruction_in_merkle_tree};
use bridge::quorum::{count_distinct_signers, verify_signatures};
use bridge::registry::CommitteeRegistry;
use bridge::{BridgeError, InteractRequest, Vault};
use k256::ecdsa::SigningKey;
use k256::elliptic_curve::sec1::ToEncodedPoint;
use sha3::{Digest, Keccak256};

fn keccak(data: &[u8]) -> [u8; 32] {
    Keccak256::digest(data).into()
}

fn join(a: &[u8; 32], b: &[u8; 32]) -> [u8; 32] {
    let mut v = a.to_vec();
    v.extend_from_slice(b);
    keccak(&v)
}

fn key(seed: u8) -> SigningKey {
    let mut bytes = [0u8; 32];
    bytes[31] = seed;
    bytes[0] = 0x11;
    SigningKey::from_slice(&bytes).unwrap()
}

fn member_name(k: &SigningKey) -> String {
    let point = k.verifying_key().to_encoded_point(false);
    hex::encode(&point.as_bytes()[1..])
}

fn committee(keys: &[SigningKey]) -> Vec<String> {
    keys.iter().map(member_name).collect()
}

fn unshield_inst(meta: u8, shard: u8, amount: u64, tx: u8) -> Vec<u8> {
    let mut inst = vec![0u8; 130];
    inst[0] = meta;
    inst[1] = shard;
    for i in 0..20 {
        inst[14 + i] = 0xA0 + i as u8;
        inst[46 + i] = 0x50 + i as u8;
    }
    inst[90..98].copy_from_slice(&amount.to_be_bytes());
    for i in 0..32 {
        inst[98 + i] = tx.wrapping_add(i as u8);
    }
    inst
}

/// A request that proves `inst` through a three-level path and is signed by
/// the keys at `signers`.
fn request(inst: &[u8], keys: &[SigningKey], signers: &[u8], height: u128) -> InteractRequest {
    let paths = vec![[1u8; 32], [2u8; 32], [3u8; 32]];
    let lefts = vec![true, false, true];
    let leaf = keccak(inst);
    let l1 = join(&paths[0], &leaf);
    let l2 = join(&l1, &paths[1]);
    let root = join(&paths[2], &l2);
    let blk_data = [7u8; 32];
    let msg = join(&blk_data, &root);
    let msg = keccak(&msg);
    let mut signatures = Vec::new();
    let mut vs = Vec::new();
    for &s in signers {
        let (sig, rid) = keys[s as usize].sign_prehash_recoverable(&msg).unwrap();
        signatures.push(hex::encode(sig.to_bytes()));
        vs.push(rid.to_byte());
    }
    InteractRequest {
        inst: hex::encode(inst),
        height,
        inst_paths: paths,
        inst_path_is_lefts: lefts,
        inst_root: root,
        blk_data,
        indexes: signers.to_vec(),
        signatures,
        vs,
    }
}

fn four_keys() -> Vec<SigningKey> {
    (1..=4).map(key).collect()
}

#[test]
fn withdraw_spends_once_then_refuses_replay() {
    let keys = four_keys();
    let mut vault = Vault::new(committee(&keys), 0).unwrap();
    let inst = unshield_inst(157, 1, 5000, 9);
    let req = request(&inst, &keys, &[0, 1, 2], 100);
    let mut tx_id = [0u8; 32];
    tx_id.copy_from_slice(&inst[98..130]);
    assert!(!vault.get_tx_burn_used(&tx_id));
    assert_eq!(vault.withdraw(req.clone()), Ok(true));
    assert!(vault.get_tx_burn_used(&tx_id));
    assert_eq!(vault.withdraw(req), Err(BridgeError::AlreadyConsumed));
}

#[test]
fn replay_with_other_signers_is_refused() {
    let keys = four_keys();
    let mut vault = Vault::new(committee(&keys), 0).unwrap();
    let inst = unshield_inst(158, 1, 1, 3);
    assert_eq!(vault.withdraw(request(&inst, &keys, &[0, 1, 2], 5)), Ok(true));
    assert_eq!(
        vault.withdraw(request(&inst, &keys, &[1, 2, 3], 6)),
        Err(BridgeError::AlreadyConsumed)
    );
    assert_eq!(vault.tx_burn.len(), 1);
}

#[test]
fn quorum_threshold_passes_and_one_fewer_fails() {
    let keys = four_keys();
    let mut vault = Vault::new(committee(&keys), 0).unwrap();
    let inst = unshield_inst(157, 1, 10, 1);
    assert_eq!(
        vault.withdraw(request(&inst, &keys, &[3, 1], 1)),
        Err(BridgeError::InsufficientQuorum)
    );
    assert_eq!(vault.tx_burn.len(), 0);
    assert_eq!(vault.withdraw(request(&inst, &keys, &[3, 1, 0], 1)), Ok(true));
}

#[test]
fn duplicate_signer_counts_once() {
    let keys = four_keys();
    let mut vault = Vault::new(committee(&keys), 0).unwrap();
    let inst = unshield_inst(157, 1, 10, 2);
    assert_eq!(
        vault.withdraw(request(&inst, &keys, &[0, 0, 1], 1)),
        Err(BridgeError::InsufficientQuorum)
    );
    assert_eq!(count_distinct_signers(&vec![0, 0, 1, 7], 4), 2);
    assert_eq!(count_distinct_signers(&vec![], 4), 0);
}

#[test]
fn unknown_metadata_type_is_refused() {
    let keys = four_keys();
    let mut vault = Vault::new(committee(&keys), 0).unwrap();
    let inst = unshield_inst(200, 1, 10, 4);
    assert_eq!(
        vault.withdraw(request(&inst, &keys, &[0, 1, 2], 1)),
        Err(BridgeError::InvalidMetadata)
    );
    assert!(vault.tx_burn.is_empty());
}

#[test]
fn other_shard_is_refused() {
    let keys = four_keys();
    let mut vault = Vault::new(committee(&keys), 0).unwrap();
    let inst = unshield_inst(157, 2, 10, 4);
    assert_eq!(
        vault.withdraw(request(&inst, &keys, &[0, 1, 2], 1)),
        Err(BridgeError::InvalidMetadata)
    );
}

#[test]
fn flipped_path_byte_fails_merkle_proof() {
    let keys = four_keys();
    let mut vault = Vault::new(committee(&keys), 0).unwrap();
    let inst = unshield_inst(157, 1, 10, 5);
    let mut req = request(&inst, &keys, &[0, 1, 2], 1);
    req.inst_paths[1][7] ^= 1;
    assert_eq!(vault.withdraw(req), Err(BridgeError::InvalidMerkleProof));
    let mut req = request(&inst, &keys, &[0, 1, 2], 1);
    req.inst_root[0] ^= 0x80;
    assert_eq!(vault.withdraw(req), Err(BridgeError::InvalidMerkleProof));
    let mut req = request(&inst, &keys, &[0, 1, 2], 1);
    req.inst_path_is_lefts.pop();
    assert_eq!(vault.withdraw(req), Err(BridgeError::InvalidMerkleProof));
}

#[test]
fn merkle_round_trip_and_single_byte_change() {
    let leaf = keccak(b"leaf");
    let path = vec![[9u8; 32], [8u8; 32]];
    let lefts = vec![false, true];
    let root = compute_root(&leaf, &path, &lefts);
    assert_eq!(root, join(&[8u8; 32], &join(&leaf, &[9u8; 32])));
    assert!(instruction_in_merkle_tree(&leaf, &root, &path, &lefts));
    for i in 0..2 {
        for b in 0..32 {
            let mut p = path.clone();
            p[i][b] ^= 1;
            assert!(!instruction_in_merkle_tree(&leaf, &root, &p, &lefts));
        }
    }
    assert!(!instruction_in_merkle_tree(&leaf, &root, &path, &vec![false]));
}

#[test]
fn empty_path_accepts_only_the_leaf() {
    let leaf = keccak(b"x");
    assert_eq!(compute_root(&leaf, &vec![], &vec![]), leaf);
    assert!(instruction_in_merkle_tree(&leaf, &leaf, &vec![], &vec![]));
    assert!(!instruction_in_merkle_tree(&leaf, &[0u8; 32], &vec![], &vec![]));
}

#[test]
fn block_hash_is_double_keccak() {
    let blk = [3u8; 32];
    let root = [4u8; 32];
    assert_eq!(block_hash(&blk, &root), keccak(&join(&blk, &root)));
    assert_ne!(block_hash(&blk, &root), join(&blk, &root));
}

#[test]
fn signer_outside_committee_is_invalid() {
    let keys = four_keys();
    let mut vault = Vault::new(committee(&keys), 0).unwrap();
    let inst = unshield_inst(157, 1, 10, 6);
    let mut req = request(&inst, &keys, &[0, 1, 2], 1);
    req.indexes[2] = 9;
    assert_eq!(vault.withdraw(req), Err(BridgeError::InvalidSignature));
    let mut req = request(&inst, &keys, &[0, 1, 2], 1);
    req.indexes[2] = 3;
    assert_eq!(vault.withdraw(req), Err(BridgeError::InvalidSignature));
    let mut req = request(&inst, &keys, &[0, 1, 2], 1);
    req.vs.pop();
    assert_eq!(vault.withdraw(req), Err(BridgeError::InvalidSignature));
    let mut req = request(&inst, &keys, &[0, 1, 2], 1);
    req.signatures[0] = "zz".to_string();
    assert_eq!(vault.withdraw(req), Err(BridgeError::InvalidSignature));
    let mut req = request(&inst, &keys, &[0, 1, 2], 1);
    req.vs[1] = 4;
    assert_eq!(vault.withdraw(req), Err(BridgeError::InvalidSignature));
    let mut req = request(&inst, &keys, &[0, 1, 2], 1);
    req.signatures[1].truncate(126);
    assert_eq!(vault.withdraw(req), Err(BridgeError::InvalidSignature));
    let req = request(&inst, &keys, &[0, 1, 2], 1);
    assert_eq!(vault.withdraw(req), Ok(true));
}

#[test]
fn uppercase_member_name_does_not_match() {
    let keys = four_keys();
    let names: Vec<String> = committee(&keys).iter().map(|s| s.to_uppercase()).collect();
    let inst = unshield_inst(157, 1, 10, 6);
    let req = request(&inst, &keys, &[0, 1, 2], 1);
    let msg = block_hash(&req.blk_data, &req.inst_root);
    assert_eq!(
        verify_signatures(&msg, &req.indexes, &req.signatures, &req.vs, &names),
        Err(BridgeError::InvalidSignature)
    );
    assert_eq!(
        verify_signatures(&msg, &req.indexes, &req.signatures, &req.vs, &committee(&keys)),
        Ok(())
    );
}

#[test]
fn malformed_instruction_text_is_refused() {
    let keys = four_keys();
    let mut vault = Vault::new(committee(&keys), 0).unwrap();
    let inst = unshield_inst(157, 1, 10, 6);
    let mut req = request(&inst, &keys, &[0, 1, 2], 1);
    req.inst.push('0');
    assert_eq!(vault.withdraw(req.clone()), Err(BridgeError::MalformedInstruction));
    req.inst.pop();
    req.inst.replace_range(0..1, "g");
    assert_eq!(vault.withdraw(req), Err(BridgeError::MalformedInstruction));
}

#[test]
fn short_instruction_is_malformed_for_withdraw_but_valid_for_swap() {
    let keys = four_keys();
    let mut vault = Vault::new(committee(&keys), 0).unwrap();
    let inst = vec![1u8, 2, 3, 4, 5];
    let req = request(&inst, &keys, &[0, 1, 2], 1);
    assert_eq!(verify_inst(&req, &committee(&keys)), Ok(inst.clone()));
    assert_eq!(vault.swap_beacon_committee(req.clone()), Ok(()));
    assert_eq!(vault.withdraw(req), Err(BridgeError::MalformedInstruction));
}

#[test]
fn swap_is_checked_against_active_committee() {
    let keys = four_keys();
    let mut vault = Vault::new(committee(&keys), 10).unwrap();
    let inst = vec![9u8; 40];
    assert_eq!(
        vault.swap_beacon_committee(request(&inst, &keys, &[0, 1, 2], 9)),
        Err(BridgeError::NoCommitteeFound)
    );
    assert_eq!(
        vault.swap_beacon_committee(request(&inst, &keys, &[0, 1], 10)),
        Err(BridgeError::InsufficientQuorum)
    );
}

#[test]
fn decode_reads_every_field() {
    let inst = unshield_inst(158, 1, 0x0102030405060708, 0x20);
    let d = decode_instruction(&inst).ok().unwrap();
    assert_eq!(d.meta_type, 158);
    assert_eq!(d.shard_id, 1);
    assert_eq!(d.token[0], 0xA0);
    assert_eq!(d.token[19], 0xA0 + 19);
    assert_eq!(d.receiver_key[0], 0x50);
    assert_eq!(d.receiver_key[19], 0x50 + 19);
    assert_eq!(d.amount, 0x0102030405060708u128);
    assert_eq!(d.tx_id[0], 0x20);
    assert_eq!(d.tx_id[31], 0x20 + 31);
    let max = unshield_inst(157, 1, u64::MAX, 0);
    assert_eq!(decode_instruction(&max).ok().unwrap().amount, u64::MAX as u128);
    assert!(matches!(
        decode_instruction(&vec![0u8; 129]),
        Err(BridgeError::MalformedInstruction)
    ));
    assert!(matches!(
        decode_instruction(&vec![0u8; 131]),
        Err(BridgeError::MalformedInstruction)
    ));
}

#[test]
fn committee_active_from_its_height_until_the_next() {
    let mut reg = CommitteeRegistry::new(10, vec!["a".to_string()]).ok().unwrap();
    assert_eq!(reg.insert(20, vec!["b".to_string(), "c".to_string()]), Ok(()));
    assert_eq!(reg.active_at(9), Err(BridgeError::NoCommitteeFound));
    assert_eq!(reg.active_at(10), Ok(vec!["a".to_string()]));
    assert_eq!(reg.active_at(19), Ok(vec!["a".to_string()]));
    assert_eq!(reg.active_at(20), Ok(vec!["b".to_string(), "c".to_string()]));
    assert_eq!(reg.active_at(u128::MAX), Ok(vec!["b".to_string(), "c".to_string()]));
}

#[test]
fn registry_refuses_empty_or_backward_committees() {
    assert!(matches!(
        CommitteeRegistry::new(0, vec![]),
        Err(BridgeError::InvalidCommittee)
    ));
    let mut reg = CommitteeRegistry::new(10, vec!["a".to_string()]).ok().unwrap();
    assert_eq!(reg.insert(11, vec![]), Err(BridgeError::InvalidCommittee));
    assert_eq!(reg.insert(10, vec!["b".to_string()]), Err(BridgeError::InvalidCommittee));
    assert_eq!(reg.insert(5, vec!["b".to_string()]), Err(BridgeError::InvalidCommittee));
    assert_eq!(reg.active_at(1000), Ok(vec!["a".to_string()]));
}

#[test]
fn vault_new_and_get_beacons() {
    assert!(matches!(Vault::new(vec![], 0), Err(BridgeError::InvalidCommittee)));
    let v = Vault::new(vec!["x".to_string(), "y".to_string()], 7).ok().unwrap();
    assert_eq!(v.get_beacons(7), Ok(vec!["x".to_string(), "y".to_string()]));
    assert_eq!(v.get_beacons(6), Err(BridgeError::NoCommitteeFound));
    assert!(!v.get_tx_burn_used(&[0u8; 32]));
}

#[test]
fn deposit_rounds_down_to_whole_units() {
    let mut v = Vault::new(vec!["x".to_string()], 0).ok().unwrap();
    let e = v.deposit("addr".to_string(), 2_500_000_000_000_000).ok().unwrap();
    assert_eq!(e.amount, 2);
    assert_eq!(e.incognito_address, "addr");
    assert_eq!(
        v.deposit("addr".to_string(), 999_999_999_999_999).err(),
        Some(BridgeError::ZeroOrInvalidAmount)
    );
    assert_eq!(v.deposit("addr".to_string(), 1_000_000_000_000_000).ok().unwrap().amount, 1);
}
