//! Leaf and node hashing.
//!
//! Leaves are hashed under a domain tag; an internal node hashes the four
//! digests of its children in branch order. Both go through SHA3-256.

use sha3::{Digest, Sha3_256};
use vstd::prelude::*;

verus! {

/// A SHA3-256 digest. Two digests are equal when their bytes are.
pub type HashDigest = [u8; 32];

/// The domain tag put in front of a leaf payload before it is hashed:
/// `QUAD_LEAF:` in ASCII.
pub const LEAF_TAG: [u8; 10] = [0x51, 0x55, 0x41, 0x44, 0x5f, 0x4c, 0x45, 0x41, 0x46, 0x3a];

/// The SHA3-256 digest of `data`, as the `sha3` crate computes it.
pub uninterp spec fn sha3_256(data: Seq<u8>) -> [u8; 32];

/// What is fed to SHA3-256 for a leaf: the tag, then the payload.
pub open spec fn leaf_preimage(data: Seq<u8>) -> Seq<u8> {
    LEAF_TAG@ + data
}

/// What is fed to SHA3-256 for an internal node: the four child digests,
/// branch 0 first.
pub open spec fn node_preimage(
    child0: HashDigest,
    child1: HashDigest,
    child2: HashDigest,
    child3: HashDigest,
) -> Seq<u8> {
    child0@ + child1@ + child2@ + child3@
}

/// The digest of a leaf payload.
pub open spec fn spec_hash_leaf(data: Seq<u8>) -> HashDigest {
    sha3_256(leaf_preimage(data))
}

/// The digest of an internal node with the given child digests.
pub open spec fn spec_hash_node(
    child0: HashDigest,
    child1: HashDigest,
    child2: HashDigest,
    child3: HashDigest,
) -> HashDigest {
    sha3_256(node_preimage(child0, child1, child2, child3))
}

/// Trusted: `sha3::Digest::digest` for `Sha3_256` returns the SHA3-256
/// digest of exactly the bytes it is given, and that digest depends on those
/// bytes alone.
#[verifier::external_body]
fn sha3_256_digest(data: &[u8]) -> (digest: HashDigest)
    ensures
        digest == sha3_256(data@),
{
    Sha3_256::digest(data).into()
}

/// Hashes a leaf payload under the leaf tag.
pub fn hash_leaf(data: &[u8]) -> (digest: HashDigest)
    ensures
        digest == spec_hash_leaf(data@),
{
    let mut input: Vec<u8> = Vec::new();
    input.extend_from_slice(LEAF_TAG.as_slice());
    input.extend_from_slice(data);
    assert(input@ =~= leaf_preimage(data@));
    sha3_256_digest(input.as_slice())
}

/// Hashes the four child digests of an internal node, in branch order.
pub fn hash_node(
    child0: &HashDigest,
    child1: &HashDigest,
    child2: &HashDigest,
    child3: &HashDigest,
) -> (digest: HashDigest)
    ensures
        digest == spec_hash_node(*child0, *child1, *child2, *child3),
{
    let mut input: [u8; 128] = [0u8; 128];
    let mut i: usize = 0;
    while i < 32
        invariant
            i <= 32,
            forall|k: int| 0 <= k < i ==> input@[k] == child0@[k],
            forall|k: int| 0 <= k < i ==> input@[32 + k] == child1@[k],
            forall|k: int| 0 <= k < i ==> input@[64 + k] == child2@[k],
            forall|k: int| 0 <= k < i ==> input@[96 + k] == child3@[k],
        decreases 32 - i,
    {
        input[i] = child0[i];
        input[32 + i] = child1[i];
        input[64 + i] = child2[i];
        input[96 + i] = child3[i];
        i += 1;
    }
    assert(input@ =~= node_preimage(*child0, *child1, *child2, *child3));
    sha3_256_digest(input.as_slice())
}

/// Byte-wise equality of two digests.
pub fn digest_eq(left: &HashDigest, right: &HashDigest) -> (same: bool)
    ensures
        same == (*left == *right),
{
    let mut i: usize = 0;
    while i < 32
        invariant
            i <= 32,
            forall|k: int| 0 <= k < i ==> left@[k] == right@[k],
        decreases 32 - i,
    {
        if left[i] != right[i] {
            return false;
        }
        i += 1;
    }
    assert(*left =~= *right);
    true
}

/// Two different byte strings that SHA3-256 maps to the same digest.
pub open spec fn is_collision(first: Seq<u8>, second: Seq<u8>) -> bool {
    first != second && sha3_256(first) == sha3_256(second)
}

/// Both hash functions are functions of the bytes they are given: equal
/// bytes in, equal digest out.
pub proof fn lemma_hashing_is_deterministic(
    first: Seq<u8>,
    second: Seq<u8>,
    left: [HashDigest; 4],
    right: [HashDigest; 4],
)
    requires
        first =~= second,
        forall|branch: int| 0 <= branch < 4 ==> left[branch]@ =~= right[branch]@,
    ensures
        spec_hash_leaf(first) == spec_hash_leaf(second),
        spec_hash_node(left[0], left[1], left[2], left[3]) == spec_hash_node(
            right[0],
            right[1],
            right[2],
            right[3],
        ),
{
    assert forall|branch: int| 0 <= branch < 4 implies left[branch] == right[branch] by {
        assert(left[branch] =~= right[branch]);
    }
}

/// Different payloads have different leaf hashes, unless SHA3-256 collides
/// on the two tagged inputs: the tag is a fixed prefix, so the input
/// determines the payload.
pub proof fn lemma_hash_leaf_separates_payloads(first: Seq<u8>, second: Seq<u8>)
    requires
        first != second,
    ensures
        leaf_preimage(first) != leaf_preimage(second),
        spec_hash_leaf(first) != spec_hash_leaf(second) || is_collision(
            leaf_preimage(first),
            leaf_preimage(second),
        ),
{
    if leaf_preimage(first) == leaf_preimage(second) {
        assert(first =~= leaf_preimage(first).skip(10));
        assert(second =~= leaf_preimage(second).skip(10));
    }
}

/// The input hashed for a node determines all four child digests and their
/// order.
pub proof fn lemma_node_preimage_injective(left: [HashDigest; 4], right: [HashDigest; 4])
    requires
        node_preimage(left[0], left[1], left[2], left[3]) == node_preimage(
            right[0],
            right[1],
            right[2],
            right[3],
        ),
    ensures
        forall|branch: int| 0 <= branch < 4 ==> left[branch] == right[branch],
{
    let ours = node_preimage(left[0], left[1], left[2], left[3]);
    let theirs = node_preimage(right[0], right[1], right[2], right[3]);
    assert forall|branch: int| 0 <= branch < 4 implies left[branch] == right[branch] by {
        assert(left[branch]@ =~= ours.subrange(32 * branch, 32 * branch + 32));
        assert(right[branch]@ =~= theirs.subrange(32 * branch, 32 * branch + 32));
        assert(left[branch] =~= right[branch]);
    }
}

/// Node hashing is sensitive to the order of the children: exchanging two
/// different child digests changes the digest, unless SHA3-256 collides on
/// the two inputs.
pub proof fn lemma_hash_node_order_sensitive(
    child0: HashDigest,
    child1: HashDigest,
    child2: HashDigest,
    child3: HashDigest,
)
    requires
        child0 != child1,
    ensures
        node_preimage(child0, child1, child2, child3) != node_preimage(
            child1,
            child0,
            child2,
            child3,
        ),
        spec_hash_node(child0, child1, child2, child3) != spec_hash_node(
            child1,
            child0,
            child2,
            child3,
        ) || is_collision(
            node_preimage(child0, child1, child2, child3),
            node_preimage(child1, child0, child2, child3),
        ),
{
    let straight: [HashDigest; 4] = [child0, child1, child2, child3];
    let swapped: [HashDigest; 4] = [child1, child0, child2, child3];
    if node_preimage(child0, child1, child2, child3) == node_preimage(
        child1,
        child0,
        child2,
        child3,
    ) {
        lemma_node_preimage_injective(straight, swapped);
        assert(straight[0] == swapped[0]);
    }
}

} // verus!
