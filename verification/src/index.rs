//! Addresses of nodes in a quaternary tree.

use vstd::prelude::*;

verus! {

/// The digits of `path` are all branch numbers, that is below four.
pub open spec fn digits_in_range(path: Seq<u8>) -> bool {
    forall|i: int| 0 <= i < path.len() ==> (#[trigger] path[i]) < 4
}

/// Position of a node: how deep it lies and which branch was taken at every
/// level on the way down from the root.
#[derive(Debug, Clone, Eq)]
pub struct QuadTreeIndex {
    /// Distance from the root; the root has depth 0.
    pub depth: u8,
    /// One digit in `0..4` per level, root first.
    pub path: Vec<u8>,
}

impl QuadTreeIndex {
    /// The index is consistent: one digit per level, every digit below four.
    pub open spec fn well_formed(&self) -> bool {
        &&& self.depth == self.path@.len()
        &&& digits_in_range(self.path@)
    }

    /// Builds an index from a depth and the matching branch digits.
    pub fn new(depth: u8, path: Vec<u8>) -> (index: Self)
        requires
            depth == path@.len(),
            digits_in_range(path@),
        ensures
            index.depth == depth,
            index.path@ == path@,
            index.well_formed(),
    {
        Self { depth, path }
    }

    /// The index of the root: depth 0 and no digits.
    pub fn root() -> (index: Self)
        ensures
            index.depth == 0,
            index.path@ == Seq::<u8>::empty(),
            index.well_formed(),
    {
        Self { depth: 0, path: Vec::new() }
    }

    /// The index of the child reached from `self` by taking `branch`.
    pub fn child(&self, branch: u8) -> (index: Self)
        requires
            branch < 4,
            self.depth < u8::MAX,
        ensures
            index.depth == self.depth + 1,
            index.path@ == self.path@.push(branch),
            self.well_formed() ==> index.well_formed(),
    {
        let mut path = self.path.clone();
        path.push(branch);
        Self { depth: self.depth + 1, path }
    }

    /// The branch digit taken at level `depth`, if the path is that long.
    pub fn branch_at_depth(&self, depth: usize) -> (branch: Option<u8>)
        ensures
            branch == if depth < self.path@.len() {
                Some(self.path@[depth as int])
            } else {
                None
            },
    {
        if depth < self.path.len() {
            Some(self.path[depth])
        } else {
            None
        }
    }
}

impl PartialEq for QuadTreeIndex {
    /// Two indices are equal when their depths are and their paths hold the
    /// same digits.
    fn eq(&self, other: &Self) -> (equal: bool) {
        if self.depth != other.depth || self.path.len() != other.path.len() {
            return false;
        }
        let mut i: usize = 0;
        while i < self.path.len()
            invariant
                i <= self.path@.len(),
                self.path@.len() == other.path@.len(),
                forall|k: int| 0 <= k < i ==> self.path@[k] == other.path@[k],
            decreases self.path@.len() - i,
        {
            if self.path[i] != other.path[i] {
                return false;
            }
            i += 1;
        }
        assert(self.path@ =~= other.path@);
        true
    }
}

impl vstd::std_specs::cmp::PartialEqSpecImpl for QuadTreeIndex {
    open spec fn obeys_eq_spec() -> bool {
        true
    }

    open spec fn eq_spec(&self, other: &Self) -> bool {
        self.depth == other.depth && self.path@ == other.path@
    }
}

} // verus!
