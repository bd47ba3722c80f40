//! Producing a membership proof from a built tree.

use crate::hash::HashDigest;
use crate::index::{digits_in_range, QuadTreeIndex};
use crate::membership::{
    child_digest, collide, lemma_verifying_proofs_agree, same_position, sibling_position,
    ProofView, QuadTreeMembershipProof,
};
use crate::tree::QuadTreeNode;
use vstd::prelude::*;
use vstd::slice::slice_to_vec;

verus! {

/// The hashes of the three children of `node` other than `branch`, in
/// ascending branch order.
pub open spec fn siblings_of(node: QuadTreeNode, branch: int) -> Seq<HashDigest> {
    Seq::new(3, |k: int| node.child(sibling_position(branch, k)).hash)
}

/// The membership proof of the leaf at `path` in `tree`: the leaf's hash,
/// the root's hash, and for each level, leaf level first, the siblings of
/// the node on the path.
pub open spec fn spec_membership_proof(tree: QuadTreeNode, path: Seq<u8>) -> ProofView {
    ProofView {
        depth: path.len(),
        path,
        leaf_hash: tree.node_at(path).hash,
        siblings: Seq::new(
            path.len(),
            |level: int|
                siblings_of(
                    tree.node_at(path.take(path.len() - 1 - level)),
                    path[path.len() - 1 - level] as int,
                ),
        ),
        root_hash: tree.hash,
    }
}

/// Folding the proof of the leaf at `path` for some levels yields the hash of
/// the node that many levels above the leaf.
pub proof fn lemma_fold_reaches_ancestor(tree: QuadTreeNode, path: Seq<u8>, levels: nat)
    requires
        tree.well_formed(path.len()),
        digits_in_range(path),
        levels <= path.len(),
    ensures
        spec_membership_proof(tree, path).folded(levels) == tree.node_at(
            path.take(path.len() - levels),
        ).hash,
    decreases levels,
{
    if levels == 0 {
        assert(path.take(path.len() as int) =~= path);
    } else {
        let generated = spec_membership_proof(tree, path);
        let level = (levels - 1) as nat;
        lemma_fold_reaches_ancestor(tree, path, level);
        // The node reached so far is the child on the path of the node one
        // level up.
        let above = path.take(path.len() - levels);
        let branch = path[path.len() - levels] as int;
        let parent = tree.node_at(above);
        assert(path.take(path.len() - level).drop_last() =~= above);
        assert(generated.folded(level) == parent.child(branch).hash);
        // With the stored siblings it makes up the four children of that
        // node, whose hash is the node hash of the four.
        assert forall|position: int| 0 <= position < 4 implies child_digest(
            generated.folded(level),
            branch,
            siblings_of(parent, branch),
            position,
        ) == parent.child(position).hash by {
            if position < branch {
                assert(sibling_position(branch, position) == position);
            } else if position > branch {
                assert(sibling_position(branch, position - 1) == position);
            }
        }
        tree.lemma_subtree_well_formed(path.len(), above);
        assert(parent.hashes_consistent(levels));
    }
}

/// Every proof generated for a leaf of a well-formed tree verifies.
pub proof fn lemma_generated_proof_verifies(tree: QuadTreeNode, path: Seq<u8>)
    requires
        tree.well_formed(path.len()),
        digits_in_range(path),
    ensures
        spec_membership_proof(tree, path).verifies(),
{
    lemma_fold_reaches_ancestor(tree, path, path.len());
}

/// A proof that verifies against the root of a well-formed tree speaks of a
/// leaf of that tree: it carries the hash of the leaf at its position and the
/// siblings found on the way there, unless SHA3-256 collides on the inputs
/// that it and the generated proof hash at some level.
pub proof fn lemma_verified_leaf_is_in_tree(tree: QuadTreeNode, candidate: ProofView)
    requires
        tree.well_formed(candidate.depth),
        candidate.root_hash == tree.hash,
        candidate.verifies(),
    ensures
        ({
            let path = candidate.path.take(candidate.depth as int);
            let generated = spec_membership_proof(tree, path);
            collide(candidate, generated) || (candidate.leaf_hash == tree.node_at(path).hash
                && candidate.siblings == generated.siblings)
        }),
{
    let path = candidate.path.take(candidate.depth as int);
    let generated = spec_membership_proof(tree, path);
    lemma_generated_proof_verifies(tree, path);
    assert(generated.path.take(generated.depth as int) =~= path);
    assert(same_position(candidate, generated));
    lemma_verifying_proofs_agree(candidate, generated);
}

/// A generated proof takes two digests, one byte of depth, one byte per
/// level for the path and three digests per level.
pub proof fn lemma_generated_proof_size(tree: QuadTreeNode, path: Seq<u8>)
    ensures
        spec_membership_proof(tree, path).size_bytes() == 32 + 32 + 1 + path.len() + path.len()
            * 3 * 32,
{
}

/// Collects the hashes of the three children other than `branch`, in
/// ascending branch order.
pub fn collect_siblings(children: &[QuadTreeNode; 4], branch: u8) -> (siblings: [HashDigest; 3])
    requires
        branch < 4,
    ensures
        forall|k: int|
            0 <= k < 3 ==> (#[trigger] siblings[k]) == children[sibling_position(
                branch as int,
                k,
            )].hash,
{
    let mut siblings: [HashDigest; 3] = [[0u8; 32]; 3];
    let mut sibling_idx: usize = 0;
    let mut i: usize = 0;
    while i < 4
        invariant
            i <= 4,
            branch < 4,
            sibling_idx == if i <= branch { i as int } else { i - 1 },
            forall|k: int|
                0 <= k < sibling_idx ==> (#[trigger] siblings[k]) == children[sibling_position(
                    branch as int,
                    k,
                )].hash,
        decreases 4 - i,
    {
        if i != branch as usize {
            siblings[sibling_idx] = children[i].hash;
            sibling_idx += 1;
        }
        i += 1;
    }
    siblings
}

/// The same items, last one first.
pub fn reversed<T: Copy>(items: &Vec<T>) -> (turned: Vec<T>)
    ensures
        turned@ == items@.reverse(),
{
    let mut turned: Vec<T> = Vec::new();
    let mut remaining: usize = items.len();
    while remaining > 0
        invariant
            remaining <= items@.len(),
            turned@.len() == items@.len() - remaining,
            forall|i: int|
                0 <= i < turned@.len() ==> (#[trigger] turned@[i]) == items@[items@.len() - 1 - i],
        decreases remaining,
    {
        remaining -= 1;
        turned.push(items[remaining]);
    }
    turned
}

/// Walks from the root of `tree` down `leaf_path`, noting the siblings met
/// at every level, and assembles the membership proof of the leaf reached.
pub fn generate_membership_proof(tree: &QuadTreeNode, leaf_path: &[u8]) -> (membership:
    QuadTreeMembershipProof)
    requires
        leaf_path@.len() <= u8::MAX,
        digits_in_range(leaf_path@),
        tree.is_complete(leaf_path@.len()),
    ensures
        membership@ == spec_membership_proof(*tree, leaf_path@),
        membership.leaf_index.well_formed(),
        membership@.well_shaped(),
        membership@.size_bytes() == 32 + 32 + 1 + leaf_path@.len() + leaf_path@.len() * 3 * 32,
        tree.hashes_consistent(leaf_path@.len()) ==> membership@.verifies(),
{
    let depth: usize = leaf_path.len();
    let mut collected: Vec<[HashDigest; 3]> = Vec::new();
    let mut current_node: &QuadTreeNode = tree;
    let mut level: usize = 0;
    while level < depth
        invariant
            depth == leaf_path@.len(),
            level <= depth,
            digits_in_range(leaf_path@),
            *current_node == tree.node_at(leaf_path@.take(level as int)),
            current_node.is_complete((depth - level) as nat),
            collected@.len() == level,
            forall|i: int|
                0 <= i < level ==> (#[trigger] collected@[i])@ == siblings_of(
                    tree.node_at(leaf_path@.take(i)),
                    leaf_path@[i] as int,
                ),
        decreases depth - level,
    {
        let branch: u8 = leaf_path[level];
        let children: &Box<[QuadTreeNode; 4]> = current_node.children.as_ref().unwrap();
        let siblings = collect_siblings(children, branch);
        collected.push(siblings);
        assert(leaf_path@.take(level + 1).drop_last() =~= leaf_path@.take(level as int));
        current_node = &children[branch as usize];
        level += 1;
    }
    let sibling_hashes = reversed(&collected);
    assert(leaf_path@.take(depth as int) =~= leaf_path@);
    let membership = QuadTreeMembershipProof {
        leaf_index: QuadTreeIndex::new(depth as u8, slice_to_vec(leaf_path)),
        leaf_hash: current_node.hash,
        sibling_hashes,
        root_hash: tree.hash,
    };
    proof {
        assert(membership@.siblings =~= spec_membership_proof(*tree, leaf_path@).siblings);
        if tree.hashes_consistent(leaf_path@.len()) {
            lemma_generated_proof_verifies(*tree, leaf_path@);
        }
    }
    membership
}

} // verus!
