//! Quaternary Merkle trees with compact membership proofs.
//!
//! A tree of depth `D` commits to `4^D` leaf payloads. A membership proof
//! carries the hash of one leaf, the three sibling hashes of every level on
//! the way up, and the root it claims; checking it needs nothing else.

pub mod generator;
pub mod guest;
pub mod hash;
pub mod index;
pub mod keygen;
pub mod membership;
pub mod tree;

pub use generator::generate_membership_proof;
pub use guest::BenchProgram;
pub use hash::{hash_leaf, hash_node, HashDigest};
pub use index::QuadTreeIndex;
pub use membership::QuadTreeMembershipProof;
pub use tree::{build_quad_tree, build_quad_tree_with, QuadTreeNode};
