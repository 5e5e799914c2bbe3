//! Validation of one attestation of the remote chain: an instruction, its
//! Merkle inclusion proof and the committee signatures over the block.
use vstd::prelude::*;
use crate::crypto::{keccak256, keccak_of};
use crate::error::BridgeError;
use crate::hexcode::{hex_decode, hex_decoded};
use crate::merkle::{concat32, instruction_in_merkle_tree, merkle_accepts};
use crate::quorum::{signature_verdict, verify_signatures};

verus! {

/// One attestation of the remote chain.
#[derive(Clone)]
pub struct InteractRequest {
    /// The instruction, hexadecimal.
    pub inst: String,
    /// The beacon height the attestation belongs to.
    pub height: u128,
    /// The siblings on the path from the instruction to the root.
    pub inst_paths: Vec<[u8; 32]>,
    /// For each sibling, whether it is the left operand.
    pub inst_path_is_lefts: Vec<bool>,
    /// The claimed instruction root.
    pub inst_root: [u8; 32],
    /// The claimed block data hash.
    pub blk_data: [u8; 32],
    /// The committee positions of the signers.
    pub indexes: Vec<u8>,
    /// The signatures (hexadecimal r || s), one per signer.
    pub signatures: Vec<String>,
    /// The recovery ids, one per signer.
    pub vs: Vec<u8>,
}

/// The message the committee signs: it binds the instruction root to the
/// block data, so that no other root can be put under the same signatures.
pub open spec fn block_message(blk_data: Seq<u8>, inst_root: Seq<u8>) -> Seq<u8> {
    keccak_of(keccak_of(blk_data + inst_root))
}

/// The outcome of validating `req` against `committee`: the raw instruction,
/// or the first check that fails, in the order hex text, Merkle proof,
/// signatures.
pub open spec fn instruction_verdict(req: InteractRequest, committee: Seq<String>) -> Result<Seq<u8>, BridgeError> {
    match hex_decoded(req.inst@) {
        None => Err(BridgeError::MalformedInstruction),
        Some(inst) => if !merkle_accepts(
            keccak_of(inst),
            req.inst_paths@,
            req.inst_path_is_lefts@,
            req.inst_root@,
        ) {
            Err(BridgeError::InvalidMerkleProof)
        } else {
            match signature_verdict(
                block_message(req.blk_data@, req.inst_root@),
                req.indexes@,
                req.signatures@,
                req.vs@,
                committee,
            ) {
                Err(e) => Err(e),
                Ok(_) => Ok(inst),
            }
        },
    }
}

/// The signed message of a block: keccak-256 applied twice to
/// `blk_data || inst_root`.
pub fn block_hash(blk_data: &[u8; 32], inst_root: &[u8; 32]) -> (r: [u8; 32])
    ensures
        r@ == block_message(blk_data@, inst_root@),
{
    let joined = concat32(blk_data, inst_root);
    let inner = keccak256(joined.as_slice());
    keccak256(&inner)
}

/// Validates `request` against the committee `beacons` and returns the raw
/// instruction bytes.
pub fn verify_inst(request: &InteractRequest, beacons: &Vec<String>) -> (r: Result<Vec<u8>, BridgeError>)
    ensures
        match instruction_verdict(*request, beacons@) {
            Ok(inst) => r matches Ok(v) && v@ == inst,
            Err(e) => r == Err::<Vec<u8>, BridgeError>(e),
        },
{
    let inst = match hex_decode(request.inst.as_str()) {
        None => {
            return Err(BridgeError::MalformedInstruction);
        },
        Some(v) => v,
    };
    let leaf = keccak256(inst.as_slice());
    if !instruction_in_merkle_tree(
        &leaf,
        &request.inst_root,
        &request.inst_paths,
        &request.inst_path_is_lefts,
    ) {
        return Err(BridgeError::InvalidMerkleProof);
    }
    let msg = block_hash(&request.blk_data, &request.inst_root);
    match verify_signatures(&msg, &request.indexes, &request.signatures, &request.vs, beacons) {
        Err(e) => Err(e),
        Ok(()) => Ok(inst),
    }
}

} // verus!
