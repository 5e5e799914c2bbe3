//! Merkle inclusion proofs over keccak-256.
use vstd::prelude::*;
use crate::crypto::{keccak_of, keccak256};

verus! {

/// The root reached from `leaf` by hashing in the siblings of `path` in turn:
/// a sibling flagged as left goes before the running hash, any other after it.
pub open spec fn merkle_root(leaf: Seq<u8>, path: Seq<[u8; 32]>, lefts: Seq<bool>) -> Seq<u8>
    decreases path.len(),
{
    if path.len() == 0 {
        leaf
    } else {
        let i = path.len() - 1;
        let below = merkle_root(leaf, path.drop_last(), lefts.subrange(0, i));
        if lefts[i] {
            keccak_of(path[i]@ + below)
        } else {
            keccak_of(below + path[i]@)
        }
    }
}

/// A proof is accepted when the flags match the path step for step and the
/// path leads from the leaf to the claimed root.
pub open spec fn merkle_accepts(
    leaf: Seq<u8>,
    path: Seq<[u8; 32]>,
    lefts: Seq<bool>,
    root: Seq<u8>,
) -> bool {
    path.len() == lefts.len() && merkle_root(leaf, path, lefts) == root
}

/// The 64 bytes `a || b`.
pub fn concat32(a: &[u8; 32], b: &[u8; 32]) -> (r: Vec<u8>)
    ensures
        r@ == a@ + b@,
{
    let mut r: Vec<u8> = Vec::with_capacity(64);
    let mut i: usize = 0;
    while i < 32
        invariant
            i <= 32,
            r@ == a@.subrange(0, i as int),
        decreases 32 - i,
    {
        r.push(a[i]);
        i = i + 1;
    }
    let mut j: usize = 0;
    while j < 32
        invariant
            j <= 32,
            r@ == a@ + b@.subrange(0, j as int),
        decreases 32 - j,
    {
        r.push(b[j]);
        j = j + 1;
    }
    assert(b@.subrange(0, 32) == b@);
    r
}

/// Whether two 32-byte values are equal, byte for byte.
pub fn bytes32_eq(a: &[u8; 32], b: &[u8; 32]) -> (r: bool)
    ensures
        r == (a@ == b@),
{
    let mut i: usize = 0;
    while i < 32
        invariant
            i <= 32,
            a@.subrange(0, i as int) == b@.subrange(0, i as int),
        decreases 32 - i,
    {
        if a[i] != b[i] {
            assert(a@[i as int] != b@[i as int]);
            return false;
        }
        assert(a@.subrange(0, i + 1) == a@.subrange(0, i as int).push(a@[i as int]));
        assert(b@.subrange(0, i + 1) == b@.subrange(0, i as int).push(b@[i as int]));
        i = i + 1;
    }
    assert(a@.subrange(0, 32) == a@);
    assert(b@.subrange(0, 32) == b@);
    true
}

/// The root that `path` and `lefts` lead to from `leaf`.
pub fn compute_root(leaf: &[u8; 32], path: &Vec<[u8; 32]>, lefts: &Vec<bool>) -> (r: [u8; 32])
    requires
        path@.len() == lefts@.len(),
    ensures
        r@ == merkle_root(leaf@, path@, lefts@),
{
    let mut cur: [u8; 32] = *leaf;
    let mut i: usize = 0;
    while i < path.len()
        invariant
            i <= path@.len(),
            path@.len() == lefts@.len(),
            cur@ == merkle_root(leaf@, path@.subrange(0, i as int), lefts@.subrange(0, i as int)),
        decreases path@.len() - i,
    {
        let ghost below = cur@;
        let joined = if lefts[i] {
            concat32(&path[i], &cur)
        } else {
            concat32(&cur, &path[i])
        };
        cur = keccak256(joined.as_slice());
        proof {
            let p = path@.subrange(0, i + 1);
            let l = lefts@.subrange(0, i + 1);
            assert(p.drop_last() == path@.subrange(0, i as int));
            assert(l.subrange(0, i as int) == lefts@.subrange(0, i as int));
            assert(merkle_root(leaf@, p, l) == if lefts@[i as int] {
                keccak_of(path@[i as int]@ + below)
            } else {
                keccak_of(below + path@[i as int]@)
            });
        }
        i = i + 1;
    }
    assert(path@.subrange(0, path@.len() as int) == path@);
    assert(lefts@.subrange(0, lefts@.len() as int) == lefts@);
    cur
}

/// Whether `path` and `lefts` prove `leaf` into `root`; flags and path of
/// different lengths prove nothing.
pub fn instruction_in_merkle_tree(
    leaf: &[u8; 32],
    root: &[u8; 32],
    path: &Vec<[u8; 32]>,
    lefts: &Vec<bool>,
) -> (r: bool)
    ensures
        r == merkle_accepts(leaf@, path@, lefts@, root@),
{
    if path.len() != lefts.len() {
        return false;
    }
    let reached = compute_root(leaf, path, lefts);
    bytes32_eq(&reached, root)
}

/// A proof is accepted for the root that its own path leads to.
pub proof fn lemma_merkle_round_trip(leaf: Seq<u8>, path: Seq<[u8; 32]>, lefts: Seq<bool>)
    requires
        path.len() == lefts.len(),
    ensures
        merkle_accepts(leaf, path, lefts, merkle_root(leaf, path, lefts)),
{
}

/// A proof that is accepted for one root is refused for any root that differs
/// from it, such as the same root with one byte changed.
pub proof fn lemma_merkle_root_unique(
    leaf: Seq<u8>,
    path: Seq<[u8; 32]>,
    lefts: Seq<bool>,
    root: Seq<u8>,
    other: Seq<u8>,
)
    requires
        merkle_accepts(leaf, path, lefts, root),
        other != root,
    ensures
        !merkle_accepts(leaf, path, lefts, other),
{
}

} // verus!
