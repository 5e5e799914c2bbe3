//! The fixed layout of an unshield instruction.
//!
//! | offset | width | field                     |
//! |--------|-------|---------------------------|
//! | 0      | 1     | metadata type             |
//! | 1      | 1     | shard id                  |
//! | 2      | 12    | reserved                  |
//! | 14     | 20    | token identifier          |
//! | 34     | 12    | reserved                  |
//! | 46     | 20    | receiver key              |
//! | 66     | 24    | reserved                  |
//! | 90     | 8     | amount, big-endian        |
//! | 98     | 32    | cross-chain transaction id |
use vstd::prelude::*;
use crate::error::BridgeError;

verus! {

/// Length in bytes of an unshield instruction.
pub const INST_LEN: usize = 130;

/// Metadata types of the two unshield requests.
pub const UNSHIELD_META_TYPE: u8 = 157;
pub const UNSHIELD_META_TYPE_ALT: u8 = 158;

/// The only shard whose instructions this bridge accepts.
pub const ACCEPTED_SHARD: u8 = 1;

/// The unsigned integer that a byte string stands for, most significant
/// byte first.
pub open spec fn be_value(s: Seq<u8>) -> nat
    decreases s.len(),
{
    if s.len() == 0 {
        0
    } else {
        be_value(s.drop_last()) * 256 + s.last() as nat
    }
}

/// 256 to the power `n`.
pub open spec fn pow256(n: nat) -> nat
    decreases n,
{
    if n == 0 {
        1
    } else {
        256 * pow256((n - 1) as nat)
    }
}

/// A value of `n` bytes is below 256 to the power `n`.
pub proof fn lemma_be_value_bound(s: Seq<u8>)
    ensures
        be_value(s) < pow256(s.len()),
    decreases s.len(),
{
    if s.len() > 0 {
        let p = s.drop_last();
        lemma_be_value_bound(p);
        let x = be_value(p);
        let q = pow256(p.len());
        let b = s.last() as nat;
        assert(x * 256 + b < q * 256) by (nonlinear_arith)
            requires
                x < q,
                b < 256,
        ;
    }
}

pub open spec fn token_of(inst: Seq<u8>) -> Seq<u8> {
    inst.subrange(14, 34)
}

pub open spec fn receiver_of(inst: Seq<u8>) -> Seq<u8> {
    inst.subrange(46, 66)
}

pub open spec fn amount_of(inst: Seq<u8>) -> nat {
    be_value(inst.subrange(90, 98))
}

pub open spec fn tx_id_of(inst: Seq<u8>) -> Seq<u8> {
    inst.subrange(98, 130)
}

/// Whether an instruction is an unshield request for the accepted shard.
pub open spec fn metadata_ok(inst: Seq<u8>) -> bool {
    (inst[0] == UNSHIELD_META_TYPE || inst[0] == UNSHIELD_META_TYPE_ALT)
        && inst[1] == ACCEPTED_SHARD
}

/// The fields of an unshield instruction.
pub struct UnshieldInstruction {
    pub meta_type: u8,
    pub shard_id: u8,
    pub token: [u8; 20],
    pub receiver_key: [u8; 20],
    pub amount: u128,
    pub tx_id: [u8; 32],
}

impl UnshieldInstruction {
    /// The fields are those that the layout puts in `inst`.
    pub open spec fn decodes(&self, inst: Seq<u8>) -> bool {
        &&& inst.len() == INST_LEN
        &&& self.meta_type == inst[0]
        &&& self.shard_id == inst[1]
        &&& self.token@ == token_of(inst)
        &&& self.receiver_key@ == receiver_of(inst)
        &&& self.amount == amount_of(inst)
        &&& self.tx_id@ == tx_id_of(inst)
    }
}

fn copy20(src: &Vec<u8>, off: usize) -> (r: [u8; 20])
    requires
        off + 20 <= src@.len(),
    ensures
        r@ == src@.subrange(off as int, off + 20),
{
    let mut r: [u8; 20] = [0u8; 20];
    let n: usize = src.len();
    let mut i: usize = 0;
    while i < 20
        invariant
            i <= 20,
            n == src@.len(),
            off + 20 <= src@.len(),
            r@.len() == 20,
            forall|k: int| 0 <= k < i ==> r@[k] == src@[off + k],
        decreases 20 - i,
    {
        r[i] = src[off + i];
        i = i + 1;
    }
    assert(r@ == src@.subrange(off as int, off + 20));
    r
}

fn copy32(src: &Vec<u8>, off: usize) -> (r: [u8; 32])
    requires
        off + 32 <= src@.len(),
    ensures
        r@ == src@.subrange(off as int, off + 32),
{
    let mut r: [u8; 32] = [0u8; 32];
    let n: usize = src.len();
    let mut i: usize = 0;
    while i < 32
        invariant
            i <= 32,
            n == src@.len(),
            off + 32 <= src@.len(),
            r@.len() == 32,
            forall|k: int| 0 <= k < i ==> r@[k] == src@[off + k],
        decreases 32 - i,
    {
        r[i] = src[off + i];
        i = i + 1;
    }
    assert(r@ == src@.subrange(off as int, off + 32));
    r
}

/// The big-endian value of the 8 bytes at `off`.
fn read_be_u64(src: &Vec<u8>, off: usize) -> (r: u128)
    requires
        off + 8 <= src@.len(),
    ensures
        r == be_value(src@.subrange(off as int, off + 8)),
        r < pow256(8),
{
    let mut acc: u128 = 0;
    let n: usize = src.len();
    let mut i: usize = 0;
    while i < 8
        invariant
            i <= 8,
            n == src@.len(),
            off + 8 <= src@.len(),
            acc == be_value(src@.subrange(off as int, off + i)),
        decreases 8 - i,
    {
        let ghost s = src@.subrange(off as int, off + i + 1);
        proof {
            assert(s.drop_last() == src@.subrange(off as int, off + i));
            lemma_be_value_bound(s.drop_last());
            assert(pow256(i as nat) <= pow256(7)) by {
                lemma_pow256_mono(i as nat, 7);
            }
            reveal_with_fuel(pow256, 8);
            assert(pow256(7) == 72057594037927936);
        }
        acc = acc * 256 + src[off + i] as u128;
        i = i + 1;
    }
    proof {
        lemma_be_value_bound(src@.subrange(off as int, off + 8));
    }
    acc
}

proof fn lemma_pow256_mono(a: nat, b: nat)
    requires
        a <= b,
    ensures
        pow256(a) <= pow256(b),
    decreases b,
{
    if a < b {
        lemma_pow256_mono(a, (b - 1) as nat);
    }
}

/// Reads an unshield instruction; any length but the layout's is malformed.
pub fn decode_instruction(inst: &Vec<u8>) -> (r: Result<UnshieldInstruction, BridgeError>)
    ensures
        inst@.len() != INST_LEN ==> r == Err::<UnshieldInstruction, BridgeError>(
            BridgeError::MalformedInstruction,
        ),
        inst@.len() == INST_LEN ==> (r matches Ok(d) && d.decodes(inst@)),
{
    if inst.len() != INST_LEN {
        return Err(BridgeError::MalformedInstruction);
    }
    let token = copy20(inst, 14);
    let receiver_key = copy20(inst, 46);
    let amount = read_be_u64(inst, 90);
    let tx_id = copy32(inst, 98);
    Ok(UnshieldInstruction {
        meta_type: inst[0],
        shard_id: inst[1],
        token,
        receiver_key,
        amount,
        tx_id,
    })
}

/// Whether the decoded fields name an unshield request for the accepted shard.
pub fn is_unshield_for_shard(d: &UnshieldInstruction) -> (r: bool)
    ensures
        r == ((d.meta_type == UNSHIELD_META_TYPE || d.meta_type == UNSHIELD_META_TYPE_ALT)
            && d.shard_id == ACCEPTED_SHARD),
{
    (d.meta_type == UNSHIELD_META_TYPE || d.meta_type == UNSHIELD_META_TYPE_ALT)
        && d.shard_id == ACCEPTED_SHARD
}

} // verus!
