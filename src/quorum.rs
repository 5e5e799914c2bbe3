//! Committee signatures over a block message, and the quorum they must reach.
use vstd::prelude::*;
use crate::crypto::{ecrecover, recovered_key};
use crate::error::BridgeError;
use crate::hexcode::{hex_decode, hex_decoded, hex_encode, hex_encoded};

verus! {

/// The signature `sig` (hexadecimal r || s) with recovery id `v` (0 to 3) recovers,
/// from `msg`, the key of the member at position `idx` of the committee; a
/// member is named by the lower-case hexadecimal text of its 64-byte key.
pub open spec fn signer_ok(msg: Seq<u8>, sig: Seq<char>, v: u8, idx: u8, committee: Seq<String>) -> bool {
    (idx as int) < committee.len() && v <= 3 && match hex_decoded(sig) {
        Some(s) => s.len() == 64 && match recovered_key(msg, s, v) {
            Some(k) => committee[idx as int]@ == hex_encoded(k),
            None => false,
        },
        None => false,
    }
}

/// The three lists agree in length and every entry is a valid signature by
/// the member it names.
pub open spec fn all_signers_ok(
    msg: Seq<u8>,
    idx: Seq<u8>,
    sigs: Seq<String>,
    vs: Seq<u8>,
    committee: Seq<String>,
) -> bool {
    &&& idx.len() == sigs.len()
    &&& sigs.len() == vs.len()
    &&& forall|i: int| 0 <= i < idx.len() ==> signer_ok(msg, #[trigger] sigs[i]@, vs[i], idx[i], committee)
}

/// Member `k` is among the signers.
pub open spec fn signs(idx: Seq<u8>, k: int) -> bool {
    exists|j: int| 0 <= j < idx.len() && idx[j] as int == k
}

/// How many of the members `0 .. n` are among the signers; an index named
/// twice counts once.
pub open spec fn distinct_signers(idx: Seq<u8>, n: nat) -> nat
    decreases n,
{
    if n == 0 {
        0
    } else {
        distinct_signers(idx, (n - 1) as nat) + if signs(idx, n - 1) { 1nat } else { 0nat }
    }
}

/// More than two thirds of a committee of `n` members.
pub open spec fn quorum_met(signers: nat, n: nat) -> bool {
    signers * 3 > n * 2
}

/// The least number of distinct signers that makes a quorum of `n` members.
pub open spec fn threshold(n: nat) -> nat {
    n * 2 / 3 + 1
}

/// The outcome of checking the signatures of a bundle against a committee.
pub open spec fn signature_verdict(
    msg: Seq<u8>,
    idx: Seq<u8>,
    sigs: Seq<String>,
    vs: Seq<u8>,
    committee: Seq<String>,
) -> Result<(), BridgeError> {
    if !all_signers_ok(msg, idx, sigs, vs, committee) {
        Err(BridgeError::InvalidSignature)
    } else if !quorum_met(distinct_signers(idx, committee.len()), committee.len()) {
        Err(BridgeError::InsufficientQuorum)
    } else {
        Ok(())
    }
}

fn signer_matches(msg: &[u8; 32], sig: &String, v: u8, idx: u8, committee: &Vec<String>) -> (r: bool)
    ensures
        r == signer_ok(msg@, sig@, v, idx, committee@),
{
    if idx as usize >= committee.len() || v > 3 {
        return false;
    }
    match hex_decode(sig.as_str()) {
        None => false,
        Some(s) => {
            if s.len() != 64 {
                return false;
            }
            match ecrecover(msg, s.as_slice(), v) {
                None => false,
                Some(k) => {
                    let name = hex_encode(k.as_slice());
                    name == committee[idx as usize]
                },
            }
        },
    }
}

fn contains_index(indexes: &Vec<u8>, k: usize) -> (r: bool)
    ensures
        r == signs(indexes@, k as int),
{
    let mut j: usize = 0;
    while j < indexes.len()
        invariant
            j <= indexes@.len(),
            forall|jj: int| 0 <= jj < j ==> indexes@[jj] as int != k,
        decreases indexes@.len() - j,
    {
        if indexes[j] as usize == k {
            return true;
        }
        j = j + 1;
    }
    false
}

/// How many distinct members of a committee of `n` are among the signers.
pub fn count_distinct_signers(indexes: &Vec<u8>, n: usize) -> (r: usize)
    ensures
        r == distinct_signers(indexes@, n as nat),
        r <= n,
{
    let mut count: usize = 0;
    let mut k: usize = 0;
    while k < n
        invariant
            k <= n,
            count <= k,
            count == distinct_signers(indexes@, k as nat),
        decreases n - k,
    {
        if contains_index(indexes, k) {
            count = count + 1;
        }
        k = k + 1;
    }
    count
}

/// Checks that every entry is a valid signature of `msg` by the committee
/// member it names, and that the distinct signers make a quorum.
pub fn verify_signatures(
    msg: &[u8; 32],
    indexes: &Vec<u8>,
    signatures: &Vec<String>,
    vs: &Vec<u8>,
    committee: &Vec<String>,
) -> (r: Result<(), BridgeError>)
    ensures
        r == signature_verdict(msg@, indexes@, signatures@, vs@, committee@),
{
    if indexes.len() != signatures.len() || signatures.len() != vs.len() {
        return Err(BridgeError::InvalidSignature);
    }
    let mut i: usize = 0;
    while i < indexes.len()
        invariant
            i <= indexes@.len(),
            indexes@.len() == signatures@.len(),
            signatures@.len() == vs@.len(),
            forall|j: int| 0 <= j < i ==> signer_ok(msg@, #[trigger] signatures@[j]@, vs@[j], indexes@[j], committee@),
        decreases indexes@.len() - i,
    {
        if !signer_matches(msg, &signatures[i], vs[i], indexes[i], committee) {
            return Err(BridgeError::InvalidSignature);
        }
        i = i + 1;
    }
    let n = committee.len();
    let count = count_distinct_signers(indexes, n);
    if (count as u128) * 3 <= (n as u128) * 2 {
        return Err(BridgeError::InsufficientQuorum);
    }
    Ok(())
}

/// The quorum is exactly the threshold: that many distinct signers make it,
/// one fewer does not.
pub proof fn lemma_threshold(n: nat)
    ensures
        quorum_met(threshold(n), n),
        threshold(n) >= 1 ==> !quorum_met((threshold(n) - 1) as nat, n),
{
    let q = n * 2 / 3;
    assert(q * 3 <= n * 2 && n * 2 < q * 3 + 3);
}

/// With every signature valid, a bundle whose distinct signers number exactly
/// the threshold passes, and one with one signer fewer fails for want of a
/// quorum.
pub proof fn lemma_quorum_boundary(
    msg: Seq<u8>,
    idx: Seq<u8>,
    sigs: Seq<String>,
    vs: Seq<u8>,
    committee: Seq<String>,
)
    requires
        all_signers_ok(msg, idx, sigs, vs, committee),
    ensures
        distinct_signers(idx, committee.len()) == threshold(committee.len())
            ==> signature_verdict(msg, idx, sigs, vs, committee) == Ok::<(), BridgeError>(()),
        distinct_signers(idx, committee.len()) + 1 == threshold(committee.len())
            ==> signature_verdict(msg, idx, sigs, vs, committee) == Err::<(), BridgeError>(
            BridgeError::InsufficientQuorum,
        ),
{
    lemma_threshold(committee.len());
}

} // verus!
