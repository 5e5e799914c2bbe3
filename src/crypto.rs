//! The two cryptographic primitives of the host that the bridge relies on:
//! keccak-256 and secp256k1 public key recovery.
use vstd::prelude::*;

verus! {

/// The keccak-256 digest of a byte string.
pub uninterp spec fn keccak_of(data: Seq<u8>) -> Seq<u8>;

/// The uncompressed public key (64 bytes, without the SEC1 tag) that signed
/// the 32-byte prehash `hash` with the 64-byte signature `sig` (r || s) and
/// recovery id `v`, if there is one and `s` is in the lower half of the
/// group order.
pub uninterp spec fn recovered_key(hash: Seq<u8>, sig: Seq<u8>, v: u8) -> Option<Seq<u8>>;

/// Relies on near_sdk::env::keccak256_array: the keccak-256 digest of `data`.
#[verifier::external_body]
pub(crate) fn keccak256(data: &[u8]) -> (r: [u8; 32])
    ensures
        r@ == keccak_of(data@),
{
    near_sdk::env::keccak256_array(data)
}

/// Relies on near_sdk::env::ecrecover, with signatures of high `s` refused:
/// the key that produced the signature, written as the 64 bytes x || y. It
/// panics on a signature of another length or a recovery id above 3.
#[verifier::external_body]
pub(crate) fn ecrecover(hash: &[u8; 32], sig: &[u8], v: u8) -> (r: Option<Vec<u8>>)
    requires
        sig@.len() == 64,
        v <= 3,
    ensures
        match r {
            Some(k) => recovered_key(hash@, sig@, v) == Some(k@) && k@.len() == 64,
            None => recovered_key(hash@, sig@, v) is None,
        },
{
    near_sdk::env::ecrecover(hash, sig, v, true).map(|k| k.to_vec())
}

} // verus!
