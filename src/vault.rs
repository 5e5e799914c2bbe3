//! The vault: the committee registry and the set of burn proofs already spent.
use vstd::prelude::*;
use crate::attestation::{instruction_verdict, verify_inst, InteractRequest};
use crate::error::BridgeError;
use crate::instruction::{
    decode_instruction, is_unshield_for_shard, metadata_ok, tx_id_of, INST_LEN, UNSHIELD_META_TYPE,
    UNSHIELD_META_TYPE_ALT,
};
use crate::merkle::bytes32_eq;
use crate::registry::CommitteeRegistry;

verus! {

/// Units of the attached native deposit per unit of the shielded amount.
pub const DEPOSIT_UNIT: u128 = 1_000_000_000_000_000;

/// Transaction `t` is among the spent ids.
pub open spec fn consumed(burned: Seq<[u8; 32]>, t: Seq<u8>) -> bool {
    exists|j: int| 0 <= j < burned.len() && (#[trigger] burned[j])@ == t
}

/// `after` is `before` with the id `t` added at the end.
pub open spec fn spent(before: Seq<[u8; 32]>, after: Seq<[u8; 32]>, t: Seq<u8>) -> bool {
    &&& after.len() == before.len() + 1
    &&& after.drop_last() == before
    &&& after.last()@ == t
}

/// The outcome of the checks of an unshield request that do not depend on
/// the spent ids: the raw instruction, or the first check that fails.
pub open spec fn unshield_verdict(beacons: CommitteeRegistry, req: InteractRequest) -> Result<Seq<u8>, BridgeError> {
    match beacons.active(req.height) {
        None => Err(BridgeError::NoCommitteeFound),
        Some(c) => match instruction_verdict(req, c) {
            Err(e) => Err(e),
            Ok(inst) => if inst.len() != INST_LEN {
                Err(BridgeError::MalformedInstruction)
            } else if !metadata_ok(inst) {
                Err(BridgeError::InvalidMetadata)
            } else {
                Ok(inst)
            },
        },
    }
}

/// The outcome of a withdrawal: the id of the burn proof it spends, or why
/// it is refused.
pub open spec fn withdraw_verdict(v: Vault, req: InteractRequest) -> Result<Seq<u8>, BridgeError> {
    match unshield_verdict(v.beacons, req) {
        Err(e) => Err(e),
        Ok(inst) => if consumed(v.tx_burn@, tx_id_of(inst)) {
            Err(BridgeError::AlreadyConsumed)
        } else {
            Ok(tx_id_of(inst))
        },
    }
}

/// What a deposit announces to the relayers of the other chain.
pub struct ShieldEvent {
    pub incognito_address: String,
    pub amount: u128,
}

/// The bridge vault.
pub struct Vault {
    /// The ids of the burn proofs already spent, in the order they were.
    pub tx_burn: Vec<[u8; 32]>,
    /// The committees of the remote chain.
    pub beacons: CommitteeRegistry,
}

fn is_consumed_in(burned: &Vec<[u8; 32]>, t: &[u8; 32]) -> (r: bool)
    ensures
        r == consumed(burned@, t@),
{
    let mut j: usize = 0;
    while j < burned.len()
        invariant
            j <= burned@.len(),
            forall|k: int| 0 <= k < j ==> (#[trigger] burned@[k])@ != t@,
        decreases burned@.len() - j,
    {
        if bytes32_eq(&burned[j], t) {
            return true;
        }
        j = j + 1;
    }
    false
}

impl Vault {
    pub open spec fn wf(&self) -> bool {
        self.beacons.wf()
    }

    /// A vault whose first committee is `beacons`, from `height` on, and
    /// that has spent nothing.
    pub fn new(beacons: Vec<String>, height: u128) -> (r: Result<Vault, BridgeError>)
        ensures
            beacons@.len() == 0 ==> r == Err::<Vault, BridgeError>(BridgeError::InvalidCommittee),
            beacons@.len() > 0 ==> (r matches Ok(v) && v.wf() && v.tx_burn@.len() == 0
                && v.beacons.heights() == seq![height] && v.beacons.committees() == seq![beacons@]),
    {
        match CommitteeRegistry::new(height, beacons) {
            Err(e) => Err(e),
            Ok(reg) => Ok(Vault { tx_burn: Vec::new(), beacons: reg }),
        }
    }

    /// Shields a native deposit of `attached_deposit` for `incognito_address`:
    /// the amount announced is the deposit in whole units, rounded down. A
    /// deposit below one unit is refused. The vault does not change.
    pub fn deposit(&mut self, incognito_address: String, attached_deposit: u128) -> (r: Result<ShieldEvent, BridgeError>)
        ensures
            *final(self) == *old(self),
            attached_deposit < DEPOSIT_UNIT ==> r == Err::<ShieldEvent, BridgeError>(BridgeError::ZeroOrInvalidAmount),
            attached_deposit >= DEPOSIT_UNIT ==> (r matches Ok(e) && e.amount == attached_deposit / DEPOSIT_UNIT
                && e.incognito_address@ == incognito_address@),
    {
        let amount = attached_deposit / DEPOSIT_UNIT;
        if amount == 0 {
            return Err(BridgeError::ZeroOrInvalidAmount);
        }
        Ok(ShieldEvent { incognito_address, amount })
    }

    /// Spends the burn proof that `unshield_info` attests: it must be signed
    /// by the committee active at its height, prove its instruction into the
    /// signed root, be an unshield request for the accepted shard, and not be
    /// spent yet. Nothing changes unless every check passes.
    pub fn withdraw(&mut self, unshield_info: InteractRequest) -> (r: Result<bool, BridgeError>)
        requires
            old(self).wf(),
        ensures
            final(self).wf(),
            final(self).beacons == old(self).beacons,
            match withdraw_verdict(*old(self), unshield_info) {
                Ok(t) => r == Ok::<bool, BridgeError>(true) && spent(old(self).tx_burn@, final(self).tx_burn@, t),
                Err(e) => r == Err::<bool, BridgeError>(e) && *final(self) == *old(self),
            },
    {
        let beacons = match self.beacons.active_at(unshield_info.height) {
            Err(e) => {
                return Err(e);
            },
            Ok(b) => b,
        };
        let inst = match verify_inst(&unshield_info, &beacons) {
            Err(e) => {
                return Err(e);
            },
            Ok(inst) => inst,
        };
        let decoded = match decode_instruction(&inst) {
            Err(e) => {
                return Err(e);
            },
            Ok(d) => d,
        };
        if !is_unshield_for_shard(&decoded) {
            return Err(BridgeError::InvalidMetadata);
        }
        if is_consumed_in(&self.tx_burn, &decoded.tx_id) {
            return Err(BridgeError::AlreadyConsumed);
        }
        let ghost before = self.tx_burn@;
        self.tx_burn.push(decoded.tx_id);
        assert(self.tx_burn@.drop_last() == before);
        Ok(true)
    }

    /// Validates a committee-swap attestation against the committee active at
    /// its height. The vault does not change.
    pub fn swap_beacon_committee(&mut self, swap_info: InteractRequest) -> (r: Result<(), BridgeError>)
        requires
            old(self).wf(),
        ensures
            *final(self) == *old(self),
            match old(self).beacons.active(swap_info.height) {
                None => r == Err::<(), BridgeError>(BridgeError::NoCommitteeFound),
                Some(c) => match instruction_verdict(swap_info, c) {
                    Ok(_) => r == Ok::<(), BridgeError>(()),
                    Err(e) => r == Err::<(), BridgeError>(e),
                },
            },
    {
        let beacons = match self.beacons.active_at(swap_info.height) {
            Err(e) => {
                return Err(e);
            },
            Ok(b) => b,
        };
        match verify_inst(&swap_info, &beacons) {
            Err(e) => Err(e),
            Ok(_) => Ok(()),
        }
    }

    /// The members of the committee active at `height`.
    pub fn get_beacons(&self, height: u128) -> (r: Result<Vec<String>, BridgeError>)
        requires
            self.wf(),
        ensures
            match self.beacons.active(height) {
                None => r == Err::<Vec<String>, BridgeError>(BridgeError::NoCommitteeFound),
                Some(c) => r matches Ok(v) && v@ == c,
            },
    {
        self.beacons.active_at(height)
    }

    /// Whether the burn proof `tx_id` has been spent.
    pub fn get_tx_burn_used(&self, tx_id: &[u8; 32]) -> (r: bool)
        ensures
            r == consumed(self.tx_burn@, tx_id@),
    {
        is_consumed_in(&self.tx_burn, tx_id)
    }
}

/// A burn proof is spent at most once: after a withdrawal spends id `t`,
/// any request for the same id, however attested, is refused as already
/// consumed.
pub proof fn lemma_replay_refused(before: Vault, after: Vault, first: InteractRequest, second: InteractRequest, t: Seq<u8>)
    requires
        withdraw_verdict(before, first) == Ok::<Seq<u8>, BridgeError>(t),
        after.beacons == before.beacons,
        spent(before.tx_burn@, after.tx_burn@, t),
        unshield_verdict(before.beacons, second) matches Ok(inst) && tx_id_of(inst) == t,
    ensures
        withdraw_verdict(after, second) == Err::<Seq<u8>, BridgeError>(BridgeError::AlreadyConsumed),
{
    let last = after.tx_burn@.len() - 1;
    assert(after.tx_burn@[last]@ == t);
}

/// A spent id stays spent: withdrawals only ever add ids.
pub proof fn lemma_spent_stays(before: Seq<[u8; 32]>, after: Seq<[u8; 32]>, t: Seq<u8>, u: Seq<u8>)
    requires
        spent(before, after, t),
        consumed(before, u),
    ensures
        consumed(after, u),
{
    let j = choose|j: int| 0 <= j < before.len() && (#[trigger] before[j])@ == u;
    assert(after[j] == after.drop_last()[j]);
}

/// An instruction of an unknown metadata type is refused as such, even when
/// its proof and signatures are valid.
pub proof fn lemma_unknown_metadata_refused(v: Vault, req: InteractRequest)
    requires
        v.beacons.active(req.height) matches Some(c) && instruction_verdict(req, c) matches Ok(inst)
            && inst.len() == INST_LEN && inst[0] != UNSHIELD_META_TYPE && inst[0] != UNSHIELD_META_TYPE_ALT,
    ensures
        withdraw_verdict(v, req) == Err::<Seq<u8>, BridgeError>(BridgeError::InvalidMetadata),
{
}

} // verus!
