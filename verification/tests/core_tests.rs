use quad_tree_core::{hash_leaf, hash_node, QuadTreeIndex, QuadTreeMembershipProof};

#[test]
fn test_quad_index_creation() {
    let idx = QuadTreeIndex::new(3, vec![0, 1, 2]);
    assert_eq!(idx.depth, 3);
    assert_eq!(idx.path, vec![0, 1, 2]);
}

#[test]
fn test_quad_index_child() {
    let root = QuadTreeIndex::root();
    let child = root.child(2);
    assert_eq!(child.depth, 1);
    assert_eq!(child.path, vec![2]);
}

#[test]
fn test_hash_deterministic() {
    let data1 = b"test_data";
    let hash1 = hash_leaf(data1);
    let hash2 = hash_leaf(data1);
    assert_eq!(hash1, hash2);
}

#[test]
fn test_hash_node_deterministic() {
    let h0 = [1u8; 32];
    let h1 = [2u8; 32];
    let h2 = [3u8; 32];
    let h3 = [4u8; 32];

    let parent1 = hash_node(&h0, &h1, &h2, &h3);
    let parent2 = hash_node(&h0, &h1, &h2, &h3);
    assert_eq!(parent1, parent2);
}

#[test]
fn test_proof_verification_simple() {
    let leaf0 = hash_leaf(b"leaf0");
    let leaf1 = hash_leaf(b"leaf1");
    let leaf2 = hash_leaf(b"leaf2");
    let leaf3 = hash_leaf(b"leaf3");

    let root = hash_node(&leaf0, &leaf1, &leaf2, &leaf3);

    let proof = QuadTreeMembershipProof {
        leaf_index: QuadTreeIndex::new(1, vec![1]),
        leaf_hash: leaf1,
        sibling_hashes: vec![[leaf0, leaf2, leaf3]],
        root_hash: root,
    };

    assert!(proof.verify());
}

#[test]
fn test_proof_verification_leaf_at_different_positions() {
    let leaf0 = hash_leaf(b"leaf0");
    let leaf1 = hash_leaf(b"leaf1");
    let leaf2 = hash_leaf(b"leaf2");
    let leaf3 = hash_leaf(b"leaf3");

    let root = hash_node(&leaf0, &leaf1, &leaf2, &leaf3);

    let proof0 = QuadTreeMembershipProof {
        leaf_index: QuadTreeIndex::new(1, vec![0]),
        leaf_hash: leaf0,
        sibling_hashes: vec![[leaf1, leaf2, leaf3]],
        root_hash: root,
    };
    assert!(proof0.verify());

    let proof2 = QuadTreeMembershipProof {
        leaf_index: QuadTreeIndex::new(1, vec![2]),
        leaf_hash: leaf2,
        sibling_hashes: vec![[leaf0, leaf1, leaf3]],
        root_hash: root,
    };
    assert!(proof2.verify());

    let proof3 = QuadTreeMembershipProof {
        leaf_index: QuadTreeIndex::new(1, vec![3]),
        leaf_hash: leaf3,
        sibling_hashes: vec![[leaf0, leaf1, leaf2]],
        root_hash: root,
    };
    assert!(proof3.verify());
}

#[test]
fn test_proof_verification_invalid() {
    let leaf0 = hash_leaf(b"leaf0");
    let leaf1 = hash_leaf(b"leaf1");
    let leaf2 = hash_leaf(b"leaf2");
    let leaf3 = hash_leaf(b"leaf3");

    let root = hash_node(&leaf0, &leaf1, &leaf2, &leaf3);

    let wrong_leaf = hash_leaf(b"wrong");
    let proof = QuadTreeMembershipProof {
        leaf_index: QuadTreeIndex::new(1, vec![1]),
        leaf_hash: wrong_leaf,
        sibling_hashes: vec![[leaf0, leaf2, leaf3]],
        root_hash: root,
    };

    assert!(!proof.verify());
}

#[test]
fn test_proof_verification_depth_2_simple() {
    let mut leaves = Vec::new();
    for i in 0..16 {
        leaves.push(hash_leaf(format!("leaf{}", i).as_bytes()));
    }

    let mut level1 = Vec::new();
    for i in 0..4 {
        level1.push(hash_node(
            &leaves[i * 4],
            &leaves[i * 4 + 1],
            &leaves[i * 4 + 2],
            &leaves[i * 4 + 3],
        ));
    }

    let root = hash_node(&level1[0], &level1[1], &level1[2], &level1[3]);

    let proof = QuadTreeMembershipProof {
        leaf_index: QuadTreeIndex::new(2, vec![0, 0]),
        leaf_hash: leaves[0],
        sibling_hashes: vec![
            [leaves[1], leaves[2], leaves[3]],
            [level1[1], level1[2], level1[3]],
        ],
        root_hash: root,
    };

    assert!(proof.verify());
}

#[test]
fn test_proof_verification_depth_2() {
    let mut leaves = Vec::new();
    for i in 0..16 {
        leaves.push(hash_leaf(format!("leaf{}", i).as_bytes()));
    }

    let mut level1 = Vec::new();
    for i in 0..4 {
        level1.push(hash_node(
            &leaves[i * 4],
            &leaves[i * 4 + 1],
            &leaves[i * 4 + 2],
            &leaves[i * 4 + 3],
        ));
    }

    let root = hash_node(&level1[0], &level1[1], &level1[2], &level1[3]);

    let proof = QuadTreeMembershipProof {
        leaf_index: QuadTreeIndex::new(2, vec![3, 3]),
        leaf_hash: leaves[15],
        sibling_hashes: vec![
            [leaves[12], leaves[13], leaves[14]],
            [level1[0], level1[1], level1[2]],
        ],
        root_hash: root,
    };

    assert!(proof.verify());
}
