//! Verification core of a cross-chain bridge vault.
//!
//! An instruction committed by a remote chain is accepted only when it is
//! proven into a Merkle root that a quorum of the remote committee signed.
//! The vault keeps the committees by height and the ids of the burn proofs
//! already spent.
use vstd::prelude::*;

pub mod error;
pub mod crypto;
pub mod hexcode;
pub mod merkle;
pub mod instruction;
pub mod quorum;
pub mod registry;
pub mod attestation;
pub mod vault;

pub use attestation::InteractRequest;
pub use error::BridgeError;
pub use vault::{ShieldEvent, Vault};

verus! {

/// Callbacks that the vault offers to the token contracts it calls.
pub trait VaultContract {
    fn deposit_ft_callback(&self) -> String;
}

} // verus!
