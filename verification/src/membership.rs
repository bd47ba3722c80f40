//! Membership proofs and their verification.
//!
//! Verification reads nothing but the proof: it folds the leaf hash with the
//! stored siblings, level by level towards the root, and compares the result
//! with the root the proof claims.

use crate::hash::{
    digest_eq, hash_node, is_collision, lemma_node_preimage_injective, node_preimage,
    spec_hash_node, HashDigest,
};
use crate::index::QuadTreeIndex;
use vstd::prelude::*;

verus! {

/// Evidence that a leaf belongs to the tree with a given root.
#[derive(Debug, Clone)]
pub struct QuadTreeMembershipProof {
    /// Where the leaf lies.
    pub leaf_index: QuadTreeIndex,
    /// The hash of the leaf.
    pub leaf_hash: HashDigest,
    /// One entry per level, leaf level first: the hashes of the three
    /// children that are not on the path, in ascending branch order.
    pub sibling_hashes: Vec<[HashDigest; 3]>,
    /// The root the proof claims.
    pub root_hash: HashDigest,
}

/// A membership proof as plain mathematical data.
pub struct ProofView {
    /// The depth the index claims.
    pub depth: nat,
    /// The branch digits of the index, root first.
    pub path: Seq<u8>,
    /// The hash of the leaf.
    pub leaf_hash: HashDigest,
    /// The sibling hashes of every level, leaf level first.
    pub siblings: Seq<Seq<HashDigest>>,
    /// The claimed root.
    pub root_hash: HashDigest,
}

/// The position among four children of the `k`-th stored sibling, when the
/// path takes `branch`: the positions in ascending order, `branch` left out.
pub open spec fn sibling_position(branch: int, k: int) -> int {
    if k < branch {
        k
    } else {
        k + 1
    }
}

/// The digest at `position` among the four children of a level, with
/// `current` on the path at `branch` and `siblings` filling the other places.
pub open spec fn child_digest(
    current: HashDigest,
    branch: int,
    siblings: Seq<HashDigest>,
    position: int,
) -> HashDigest {
    if position == branch {
        current
    } else if position < branch {
        siblings[position]
    } else {
        siblings[position - 1]
    }
}

/// The digest of the parent of `current`, which is its child number `branch`.
pub open spec fn parent_digest(
    current: HashDigest,
    branch: int,
    siblings: Seq<HashDigest>,
) -> HashDigest {
    spec_hash_node(
        child_digest(current, branch, siblings, 0),
        child_digest(current, branch, siblings, 1),
        child_digest(current, branch, siblings, 2),
        child_digest(current, branch, siblings, 3),
    )
}

impl ProofView {
    /// The branch digit used at the given level, counted from the leaf.
    pub open spec fn branch_at_level(self, level: int) -> int {
        self.path[self.depth - 1 - level] as int
    }

    /// The digest reached after folding the first `levels` levels, leaf
    /// upward.
    pub open spec fn folded(self, levels: nat) -> HashDigest
        decreases levels,
    {
        if levels == 0 {
            self.leaf_hash
        } else {
            parent_digest(
                self.folded((levels - 1) as nat),
                self.branch_at_level(levels - 1),
                self.siblings[levels - 1],
            )
        }
    }

    /// The bytes hashed when the given level is folded: the four child
    /// digests of that level in branch order.
    pub open spec fn level_preimage(self, level: nat) -> Seq<u8> {
        let current = self.folded(level);
        let branch = self.branch_at_level(level as int);
        let siblings = self.siblings[level as int];
        node_preimage(
            child_digest(current, branch, siblings, 0),
            child_digest(current, branch, siblings, 1),
            child_digest(current, branch, siblings, 2),
            child_digest(current, branch, siblings, 3),
        )
    }

    /// The proof has the shape verification asks for: one sibling entry per
    /// level, each of three hashes, and a branch digit below four for every
    /// level.
    pub open spec fn well_shaped(self) -> bool {
        &&& self.siblings.len() == self.depth
        &&& self.depth <= self.path.len()
        &&& forall|level: int|
            0 <= level < self.depth ==> (#[trigger] self.siblings[level]).len() == 3
        &&& forall|level: int| 0 <= level < self.depth ==> (#[trigger] self.path[level]) < 4
    }

    /// The proof verifies: it is well shaped and folding it yields the
    /// claimed root.
    pub open spec fn verifies(self) -> bool {
        self.well_shaped() && self.folded(self.depth) == self.root_hash
    }

    /// The size of the proof in its transport form.
    pub open spec fn size_bytes(self) -> nat {
        32 + 32 + 1 + self.path.len() + self.siblings.len() * 3 * 32
    }
}

impl View for QuadTreeMembershipProof {
    type V = ProofView;

    open spec fn view(&self) -> ProofView {
        ProofView {
            depth: self.leaf_index.depth as nat,
            path: self.leaf_index.path@,
            leaf_hash: self.leaf_hash,
            siblings: Seq::new(
                self.sibling_hashes@.len(),
                |level: int| self.sibling_hashes@[level]@,
            ),
            root_hash: self.root_hash,
        }
    }
}

/// Lays out the four children of a level: `current` at `branch`, the stored
/// siblings in the other places in ascending order.
pub fn place_children(
    current: &HashDigest,
    branch: usize,
    siblings: &[HashDigest; 3],
) -> (children: [HashDigest; 4])
    requires
        branch < 4,
    ensures
        forall|position: int|
            0 <= position < 4 ==> (#[trigger] children[position]) == child_digest(
                *current,
                branch as int,
                siblings@,
                position,
            ),
{
    let mut children: [HashDigest; 4] = [[0u8; 32]; 4];
    let mut sibling_idx: usize = 0;
    let mut i: usize = 0;
    while i < 4
        invariant
            i <= 4,
            branch < 4,
            sibling_idx == if i <= branch { i as int } else { i - 1 },
            forall|position: int|
                0 <= position < i ==> (#[trigger] children[position]) == child_digest(
                    *current,
                    branch as int,
                    siblings@,
                    position,
                ),
        decreases 4 - i,
    {
        if i == branch {
            children[i] = *current;
        } else {
            children[i] = siblings[sibling_idx];
            sibling_idx += 1;
        }
        i += 1;
    }
    children
}

impl QuadTreeMembershipProof {
    /// Checks the proof by rebuilding the root from the leaf upward. Any
    /// malformed proof is rejected; no input makes this fail otherwise.
    pub fn verify(&self) -> (valid: bool)
        ensures
            valid == self@.verifies(),
    {
        let depth: usize = self.leaf_index.depth as usize;
        if depth != self.sibling_hashes.len() {
            return false;
        }
        let mut current_hash: HashDigest = self.leaf_hash;
        let mut level_from_leaf: usize = 0;
        while level_from_leaf < depth
            invariant
                depth == self.leaf_index.depth,
                depth == self.sibling_hashes@.len(),
                level_from_leaf <= depth,
                current_hash == self@.folded(level_from_leaf as nat),
                level_from_leaf > 0 ==> depth <= self.leaf_index.path@.len(),
                forall|j: int|
                    depth - level_from_leaf <= j < depth ==> (#[trigger] self.leaf_index.path@[j])
                        < 4,
            decreases depth - level_from_leaf,
        {
            let path_level: usize = depth - 1 - level_from_leaf;
            let branch_index: usize = match self.leaf_index.branch_at_depth(path_level) {
                Some(idx) => idx as usize,
                None => {
                    return false;
                },
            };
            if branch_index >= 4 {
                return false;
            }
            let children = place_children(
                &current_hash,
                branch_index,
                &self.sibling_hashes[level_from_leaf],
            );
            current_hash = hash_node(&children[0], &children[1], &children[2], &children[3]);
            level_from_leaf += 1;
        }
        digest_eq(&current_hash, &self.root_hash)
    }

    /// The size of the proof in its transport form: two digests, one byte of
    /// depth, the path, and three digests per level.
    pub fn size_bytes(&self) -> (size: usize)
        requires
            self@.size_bytes() <= usize::MAX,
        ensures
            size == self@.size_bytes(),
    {
        let path_size: usize = self.leaf_index.path.len();
        let sibling_size: usize = self.sibling_hashes.len() * 3 * 32;
        32 + 32 + 1 + path_size + sibling_size
    }
}

/// Two proofs speak of the same leaf position.
pub open spec fn same_position(first: ProofView, second: ProofView) -> bool {
    &&& first.depth == second.depth
    &&& first.path.take(first.depth as int) == second.path.take(second.depth as int)
}

/// At some level the two proofs hash different inputs to the same digest.
pub open spec fn collide(first: ProofView, second: ProofView) -> bool {
    exists|level: nat|
        level < first.depth && is_collision(
            #[trigger] first.level_preimage(level),
            second.level_preimage(level),
        )
}

/// Two well-shaped proofs for the same position whose folds agree after
/// `levels` levels agree on everything below, or collide below.
proof fn lemma_agree_below(first: ProofView, second: ProofView, levels: nat)
    requires
        first.well_shaped(),
        second.well_shaped(),
        same_position(first, second),
        levels <= first.depth,
        first.folded(levels) == second.folded(levels),
    ensures
        collide(first, second) || {
            &&& first.leaf_hash == second.leaf_hash
            &&& forall|level: int|
                0 <= level < levels ==> (#[trigger] first.siblings[level]) == second.siblings[level]
        },
    decreases levels,
{
    if levels > 0 {
        let level = (levels - 1) as nat;
        // Both proofs take the same branch at this level.
        let at = first.depth - levels;
        assert(first.path[at] == first.path.take(first.depth as int)[at]);
        assert(second.path[at] == second.path.take(second.depth as int)[at]);
        let branch = first.branch_at_level(level as int);
        let ours = first.siblings[level as int];
        let theirs = second.siblings[level as int];
        let left = first.level_preimage(level);
        let right = second.level_preimage(level);
        if left == right {
            // Equal inputs hold the same four digests in the same places.
            let placed_ours: [HashDigest; 4] = [
                child_digest(first.folded(level), branch, ours, 0),
                child_digest(first.folded(level), branch, ours, 1),
                child_digest(first.folded(level), branch, ours, 2),
                child_digest(first.folded(level), branch, ours, 3),
            ];
            let placed_theirs: [HashDigest; 4] = [
                child_digest(second.folded(level), branch, theirs, 0),
                child_digest(second.folded(level), branch, theirs, 1),
                child_digest(second.folded(level), branch, theirs, 2),
                child_digest(second.folded(level), branch, theirs, 3),
            ];
            lemma_node_preimage_injective(placed_ours, placed_theirs);
            assert forall|position: int| 0 <= position < 4 implies child_digest(
                first.folded(level),
                branch,
                ours,
                position,
            ) == child_digest(second.folded(level), branch, theirs, position) by {
                assert(placed_ours[position] == placed_theirs[position]);
            }
            assert(ours =~= theirs) by {
                assert forall|k: int| 0 <= k < 3 implies ours[k] == theirs[k] by {
                    let position = sibling_position(branch, k);
                    assert(child_digest(first.folded(level), branch, ours, position) == ours[k]);
                }
            }
            lemma_agree_below(first, second, level);
        }
    }
}

/// A proof binds its contents: two proofs that both verify, for the same
/// leaf position and against the same root, carry the same leaf hash and the
/// same sibling hashes, unless SHA3-256 collides on the inputs that the two
/// hash at some level.
pub proof fn lemma_verifying_proofs_agree(first: ProofView, second: ProofView)
    requires
        same_position(first, second),
        first.root_hash == second.root_hash,
        first.verifies(),
        second.verifies(),
    ensures
        collide(first, second) || (first.leaf_hash == second.leaf_hash && first.siblings
            == second.siblings),
{
    lemma_agree_below(first, second, first.depth);
    if !collide(first, second) {
        assert(first.siblings =~= second.siblings);
    }
}

/// A verifying proof stops verifying when its claimed root is replaced by
/// any other digest.
pub proof fn lemma_changed_root_rejected(valid: ProofView, root_hash: HashDigest)
    requires
        valid.verifies(),
        root_hash != valid.root_hash,
    ensures
        !(ProofView { root_hash, ..valid }).verifies(),
{
    let changed = ProofView { root_hash, ..valid };
    lemma_same_fold(valid, changed, valid.depth);
}

/// Folding reads neither the claimed root nor the claimed depth beyond the
/// levels folded: proofs that agree on the rest fold alike.
proof fn lemma_same_fold(first: ProofView, second: ProofView, levels: nat)
    requires
        first.depth == second.depth,
        first.path == second.path,
        first.leaf_hash == second.leaf_hash,
        first.siblings == second.siblings,
    ensures
        first.folded(levels) == second.folded(levels),
    decreases levels,
{
    if levels > 0 {
        lemma_same_fold(first, second, (levels - 1) as nat);
    }
}

/// A verifying proof whose leaf hash is replaced by another digest stops
/// verifying, unless SHA3-256 collides on the inputs hashed at some level.
pub proof fn lemma_changed_leaf_hash_rejected(valid: ProofView, leaf_hash: HashDigest)
    requires
        valid.verifies(),
        leaf_hash != valid.leaf_hash,
    ensures
        !(ProofView { leaf_hash, ..valid }).verifies() || collide(
            valid,
            (ProofView { leaf_hash, ..valid }),
        ),
{
    let changed = ProofView { leaf_hash, ..valid };
    if changed.verifies() {
        lemma_verifying_proofs_agree(valid, changed);
    }
}

/// A verifying proof in which one stored sibling hash is replaced by another
/// digest stops verifying, unless SHA3-256 collides on the inputs hashed at
/// some level.
pub proof fn lemma_changed_sibling_rejected(
    valid: ProofView,
    level: int,
    slot: int,
    sibling: HashDigest,
)
    requires
        valid.verifies(),
        0 <= level < valid.depth,
        0 <= slot < 3,
        sibling != valid.siblings[level][slot],
    ensures
        ({
            let changed = ProofView {
                siblings: valid.siblings.update(level, valid.siblings[level].update(slot, sibling)),
                ..valid
            };
            !changed.verifies() || collide(valid, changed)
        }),
{
    let changed = ProofView {
        siblings: valid.siblings.update(level, valid.siblings[level].update(slot, sibling)),
        ..valid
    };
    if changed.verifies() {
        lemma_verifying_proofs_agree(valid, changed);
    }
}

/// The sibling list must have exactly one entry per level: a verifying
/// proof stops verifying when a level is appended to the list, and when any
/// one of its levels is removed.
pub proof fn lemma_level_count_must_match(valid: ProofView, extra: Seq<HashDigest>, at: int)
    requires
        valid.verifies(),
    ensures
        !(ProofView { siblings: valid.siblings.push(extra), ..valid }).verifies(),
        0 <= at < valid.depth ==> !(ProofView {
            siblings: valid.siblings.remove(at),
            ..valid
        }).verifies(),
{
}

} // verus!
