//! What the zkVM guest computes: it re-checks a membership proof that it is
//! given in private, and makes public only the root and the verdict.

use crate::hash::HashDigest;
use crate::membership::QuadTreeMembershipProof;
use vstd::prelude::*;

verus! {

/// A program for the zkVM to run: the name it goes by, the path of its ELF
/// image, and the input it is given, if it takes one.
#[derive(Clone, Copy, Debug)]
pub struct BenchProgram {
    /// The name the program goes by.
    pub name: &'static str,
    /// Where the ELF image of the program lies.
    pub elf: &'static str,
    /// The input of the program: a path, or a tag that stands for a
    /// built-in input.
    pub input: Option<&'static str>,
}

/// The two values that a run of the guest makes public. The leaf, its
/// position and the sibling hashes stay with the prover.
#[derive(Clone, Copy, Debug)]
pub struct PublicValues {
    /// The root that the proof claims.
    pub root_hash: HashDigest,
    /// Whether the proof verifies against that root.
    pub is_valid: bool,
}

/// Checks `membership` and returns what the guest makes public of it.
pub fn public_values(membership: &QuadTreeMembershipProof) -> (values: PublicValues)
    ensures
        values.root_hash == membership.root_hash,
        values.is_valid == membership@.verifies(),
{
    PublicValues { root_hash: membership.root_hash, is_valid: membership.verify() }
}

} // verus!
