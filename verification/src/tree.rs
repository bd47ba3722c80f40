//! The tree itself: nodes, their shape, and how a tree is built.

use crate::hash::{hash_leaf, hash_node, spec_hash_leaf, spec_hash_node, HashDigest};
use crate::index::{digits_in_range, QuadTreeIndex};
use crate::keygen::{ml_kem_768_encapsulation_key, ML_KEM_768_KEY_LEN};
use vstd::prelude::*;

verus! {

/// A node of a quaternary Merkle tree. A node without children is a leaf;
/// every other node owns exactly four subtrees.
pub struct QuadTreeNode {
    /// The digest that commits to everything below this node.
    pub hash: HashDigest,
    /// The four subtrees in branch order, or nothing for a leaf.
    pub children: Option<Box<[QuadTreeNode; 4]>>,
}

impl QuadTreeNode {
    /// The subtree reached by taking `branch`; meaningful for internal nodes
    /// and `0 <= branch < 4`.
    pub open spec fn child(&self, branch: int) -> QuadTreeNode {
        (*self.children.unwrap())[branch]
    }

    /// Every leaf of the tree lies exactly `depth` levels below this node.
    pub open spec fn is_complete(&self, depth: nat) -> bool
        decreases depth,
    {
        if depth == 0 {
            self.children is None
        } else {
            &&& self.children is Some
            &&& forall|branch: int|
                0 <= branch < 4 ==> (#[trigger] self.child(branch)).is_complete((depth - 1) as nat)
        }
    }

    /// Down to `depth` levels below this node, every internal node carries
    /// the node hash of its four children.
    pub open spec fn hashes_consistent(&self, depth: nat) -> bool
        decreases depth,
    {
        depth > 0 ==> {
            &&& self.hash == spec_hash_node(
                self.child(0).hash,
                self.child(1).hash,
                self.child(2).hash,
                self.child(3).hash,
            )
            &&& forall|branch: int|
                0 <= branch < 4 ==> (#[trigger] self.child(branch)).hashes_consistent(
                    (depth - 1) as nat,
                )
        }
    }

    /// A complete tree of the given depth whose hashes are consistent.
    pub open spec fn well_formed(&self, depth: nat) -> bool {
        self.is_complete(depth) && self.hashes_consistent(depth)
    }

    /// The node reached from this one by following `path`, root digit first.
    pub open spec fn node_at(&self, path: Seq<u8>) -> QuadTreeNode
        decreases path.len(),
    {
        if path.len() == 0 {
            *self
        } else {
            self.node_at(path.drop_last()).child(path.last() as int)
        }
    }

    /// Following a non-empty path is taking its first digit and following
    /// the rest from the child.
    pub proof fn lemma_node_at_first(&self, path: Seq<u8>)
        requires
            path.len() > 0,
        ensures
            self.node_at(path) == self.child(path[0] as int).node_at(path.drop_first()),
        decreases path.len(),
    {
        if path.len() == 1 {
            assert(self.node_at(path.drop_last()) == *self);
            assert(self.child(path[0] as int).node_at(path.drop_first()) == self.child(
                path[0] as int,
            ));
        } else {
            self.lemma_node_at_first(path.drop_last());
            assert(path.drop_last().drop_first() =~= path.drop_first().drop_last());
        }
    }

    /// What lies below a node of a well-formed tree is a well-formed tree of
    /// the depth that remains.
    pub proof fn lemma_subtree_well_formed(&self, depth: nat, path: Seq<u8>)
        requires
            self.well_formed(depth),
            path.len() <= depth,
            digits_in_range(path),
        ensures
            self.node_at(path).well_formed((depth - path.len()) as nat),
        decreases path.len(),
    {
        if path.len() > 0 {
            self.lemma_subtree_well_formed(depth, path.drop_last());
            let above = self.node_at(path.drop_last());
            assert(above.child(path.last() as int).well_formed((depth - path.len()) as nat));
        }
    }

    /// A leaf that commits to `payload`.
    pub fn leaf(payload: &[u8]) -> (node: Self)
        ensures
            node.hash == spec_hash_leaf(payload@),
            node.children is None,
            node.well_formed(0),
    {
        Self { hash: hash_leaf(payload), children: None }
    }

    /// An internal node over four subtrees, given in branch order.
    pub fn parent(children: [QuadTreeNode; 4]) -> (node: Self)
        ensures
            node.hash == spec_hash_node(
                children[0].hash,
                children[1].hash,
                children[2].hash,
                children[3].hash,
            ),
            node.children == Some(Box::new(children)),
            forall|depth: nat|
                (forall|branch: int| 0 <= branch < 4 ==> children[branch].well_formed(depth))
                    ==> #[trigger] node.well_formed(depth + 1),
    {
        let hash = hash_node(
            &children[0].hash,
            &children[1].hash,
            &children[2].hash,
            &children[3].hash,
        );
        Self { hash, children: Some(Box::new(children)) }
    }
}

/// `hash` is the leaf hash of a payload that `produce_leaf` can hand out for
/// the leaf at `path`.
pub open spec fn leaf_produced_by<F, E>(produce_leaf: F, path: Seq<u8>, hash: HashDigest) -> bool
    where F: Fn(QuadTreeIndex) -> Result<Vec<u8>, E>
{
    exists|index: QuadTreeIndex, payload: Vec<u8>|
        index.well_formed() && index.path@ == path
            && call_ensures(produce_leaf, (index,), Ok::<Vec<u8>, E>(payload))
            && hash == spec_hash_leaf(payload@)
}

/// `produce_leaf` can fail with `error` on some leaf of a tree of the given
/// depth.
pub open spec fn leaf_source_fails_with<F, E>(produce_leaf: F, depth: nat, error: E) -> bool
    where F: Fn(QuadTreeIndex) -> Result<Vec<u8>, E>
{
    exists|index: QuadTreeIndex|
        index.well_formed() && index.depth == depth
            && call_ensures(produce_leaf, (index,), Err::<Vec<u8>, E>(error))
}

/// `produce_leaf` may be called on every leaf position of a tree of the
/// given depth.
pub open spec fn leaf_source_ready<F, E>(produce_leaf: F, depth: nat) -> bool
    where F: Fn(QuadTreeIndex) -> Result<Vec<u8>, E>
{
    forall|index: QuadTreeIndex|
        index.well_formed() && index.depth == depth ==> call_requires(produce_leaf, (index,))
}

fn build_subtree<F, E>(index: QuadTreeIndex, target_depth: u8, produce_leaf: &F) -> (built: Result<
    QuadTreeNode,
    E,
>)
    where F: Fn(QuadTreeIndex) -> Result<Vec<u8>, E>
    requires
        index.well_formed(),
        index.depth <= target_depth,
        leaf_source_ready(*produce_leaf, target_depth as nat),
    ensures
        built matches Ok(node) ==> {
            &&& node.well_formed((target_depth - index.depth) as nat)
            &&& forall|suffix: Seq<u8>|
                suffix.len() == target_depth - index.depth && digits_in_range(suffix)
                    ==> leaf_produced_by(
                    *produce_leaf,
                    index.path@ + suffix,
                    #[trigger] node.node_at(suffix).hash,
                )
        },
        built matches Err(error) ==> leaf_source_fails_with(
            *produce_leaf,
            target_depth as nat,
            error,
        ),
    decreases target_depth - index.depth,
{
    if index.depth == target_depth {
        let ghost at_leaf = index;
        match produce_leaf(index) {
            Ok(payload) => {
                let node = QuadTreeNode::leaf(payload.as_slice());
                assert forall|suffix: Seq<u8>|
                    suffix.len() == 0 implies leaf_produced_by(
                    *produce_leaf,
                    at_leaf.path@ + suffix,
                    #[trigger] node.node_at(suffix).hash,
                ) by {
                    assert(at_leaf.path@ + suffix =~= at_leaf.path@);
                }
                Ok(node)
            },
            Err(error) => Err(error),
        }
    } else {
        let child0 = build_subtree(index.child(0), target_depth, produce_leaf)?;
        let child1 = build_subtree(index.child(1), target_depth, produce_leaf)?;
        let child2 = build_subtree(index.child(2), target_depth, produce_leaf)?;
        let child3 = build_subtree(index.child(3), target_depth, produce_leaf)?;
        let node = QuadTreeNode::parent([child0, child1, child2, child3]);
        assert forall|suffix: Seq<u8>|
            suffix.len() == target_depth - index.depth && digits_in_range(suffix)
                implies leaf_produced_by(
            *produce_leaf,
            index.path@ + suffix,
            #[trigger] node.node_at(suffix).hash,
        ) by {
            // The leaf lies below the child that the first digit names.
            node.lemma_node_at_first(suffix);
            assert(index.path@.push(suffix[0]) + suffix.drop_first() =~= index.path@ + suffix);
        }
        Ok(node)
    }
}

/// Builds the complete tree of the given depth, asking `produce_leaf` for the
/// payload of each of its `4^depth` leaves, leftmost leaf first. The first
/// failure of `produce_leaf` ends the build and is handed back; no partial
/// tree is returned.
pub fn build_quad_tree_with<F, E>(depth: u8, produce_leaf: &F) -> (built: Result<QuadTreeNode, E>)
    where F: Fn(QuadTreeIndex) -> Result<Vec<u8>, E>
    requires
        leaf_source_ready(*produce_leaf, depth as nat),
    ensures
        built matches Ok(tree) ==> {
            &&& tree.well_formed(depth as nat)
            &&& forall|path: Seq<u8>|
                path.len() == depth && digits_in_range(path) ==> leaf_produced_by(
                    *produce_leaf,
                    path,
                    #[trigger] tree.node_at(path).hash,
                )
        },
        built matches Err(error) ==> leaf_source_fails_with(*produce_leaf, depth as nat, error),
{
    let built = build_subtree(QuadTreeIndex::root(), depth, produce_leaf);
    proof {
        if built is Ok {
            let tree = built->Ok_0;
            assert forall|path: Seq<u8>|
                path.len() == depth && digits_in_range(path) implies leaf_produced_by(
                *produce_leaf,
                path,
                #[trigger] tree.node_at(path).hash,
            ) by {
                assert(Seq::<u8>::empty() + path =~= path);
            }
        }
    }
    built
}

/// `hash` is the leaf hash of some byte string as long as an encoded
/// ML-KEM-768 encapsulation key.
pub open spec fn commits_to_key(hash: HashDigest) -> bool {
    exists|payload: Seq<u8>|
        payload.len() == ML_KEM_768_KEY_LEN && hash == spec_hash_leaf(payload)
}

/// Builds the complete tree of the given depth over freshly generated
/// ML-KEM-768 encapsulation keys, one per leaf.
pub fn build_quad_tree(depth: u8) -> (tree: QuadTreeNode)
    ensures
        tree.well_formed(depth as nat),
        forall|path: Seq<u8>|
            path.len() == depth && digits_in_range(path) ==> commits_to_key(
                #[trigger] tree.node_at(path).hash,
            ),
{
    let fresh_key = |_index: QuadTreeIndex| -> (produced: Result<Vec<u8>, ()>)
        ensures
            produced matches Ok(payload) && payload@.len() == ML_KEM_768_KEY_LEN,
        { Ok(ml_kem_768_encapsulation_key()) };
    match build_quad_tree_with(depth, &fresh_key) {
        Ok(tree) => tree,
        Err(_) => vstd::pervasive::unreached(),
    }
}

} // verus!
