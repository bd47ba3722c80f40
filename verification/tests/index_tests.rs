use quad_tree_core::QuadTreeIndex;

#[test]
fn root_has_depth_zero_and_no_digits() {
    let root = QuadTreeIndex::root();
    assert_eq!(root.depth, 0);
    assert!(root.path.is_empty());
}

#[test]
fn new_of_nothing_is_the_root() {
    assert_eq!(QuadTreeIndex::new(0, vec![]), QuadTreeIndex::root());
}

#[test]
fn child_appends_one_digit_and_leaves_parent_alone() {
    let parent = QuadTreeIndex::new(2, vec![3, 0]);
    let child = parent.child(1);
    assert_eq!(child.depth, 3);
    assert_eq!(child.path, vec![3, 0, 1]);
    assert_eq!(parent.depth, 2);
    assert_eq!(parent.path, vec![3, 0]);
}

#[test]
fn child_accepts_every_branch() {
    for branch in 0u8..4 {
        let child = QuadTreeIndex::root().child(branch);
        assert_eq!(child, QuadTreeIndex::new(1, vec![branch]));
    }
}

#[test]
fn child_chain_reaches_greatest_depth() {
    let mut index = QuadTreeIndex::root();
    for level in 0..255usize {
        index = index.child((level % 4) as u8);
    }
    assert_eq!(index.depth, 255);
    assert_eq!(index.path.len(), 255);
    assert_eq!(index.branch_at_depth(254), Some(2));
}

#[test]
fn branch_at_depth_reads_digits_in_range_only() {
    let index = QuadTreeIndex::new(3, vec![2, 0, 3]);
    assert_eq!(index.branch_at_depth(0), Some(2));
    assert_eq!(index.branch_at_depth(1), Some(0));
    assert_eq!(index.branch_at_depth(2), Some(3));
    assert_eq!(index.branch_at_depth(3), None);
    assert_eq!(index.branch_at_depth(usize::MAX), None);
    assert_eq!(QuadTreeIndex::root().branch_at_depth(0), None);
}

#[test]
fn indices_are_equal_when_depth_and_digits_are() {
    let index = QuadTreeIndex::new(2, vec![1, 2]);
    assert_eq!(index, QuadTreeIndex::new(2, vec![1, 2]));
    assert_eq!(index, QuadTreeIndex::root().child(1).child(2));
    assert_ne!(index, QuadTreeIndex::new(2, vec![2, 1]));
    assert_ne!(index, QuadTreeIndex::new(2, vec![1, 3]));
    assert_ne!(index, QuadTreeIndex::new(1, vec![1]));
    assert_ne!(index, QuadTreeIndex::new(3, vec![1, 2, 0]));
}

#[test]
fn indices_with_equal_digits_and_unequal_depth_differ() {
    let stated = QuadTreeIndex { depth: 1, path: vec![1, 2] };
    let actual = QuadTreeIndex { depth: 2, path: vec![1, 2] };
    assert_ne!(stated, actual);
}
