use vstd::prelude::*;

verus! {

/// The ways in which a bridge operation can fail.
#[derive(Clone, Copy, Debug, PartialEq, Eq, Structural)]
pub enum BridgeError {
    InvalidCommittee,
    NoCommitteeFound,
    MalformedInstruction,
    InvalidMerkleProof,
    InvalidSignature,
    InsufficientQuorum,
    InvalidMetadata,
    AlreadyConsumed,
    ZeroOrInvalidAmount,
}

} // verus!
