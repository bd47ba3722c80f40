use quad_tree_core::hash::{digest_eq, LEAF_TAG};
use quad_tree_core::{hash_leaf, hash_node};
use sha3::{Digest, Sha3_256};

fn streamed(parts: &[&[u8]]) -> [u8; 32] {
    let mut hasher = Sha3_256::new();
    for part in parts {
        hasher.update(part);
    }
    hasher.finalize().into()
}

#[test]
fn leaf_tag_spells_quad_leaf() {
    assert_eq!(&LEAF_TAG, b"QUAD_LEAF:");
}

#[test]
fn hash_leaf_of_empty_payload_is_digest_of_tag() {
    let expected: [u8; 32] = [
        0x03, 0x7e, 0x5b, 0x48, 0x8c, 0x08, 0x41, 0xab, 0xa2, 0x19, 0x75, 0x81, 0x56, 0xb2, 0x2f,
        0x0c, 0x29, 0x1d, 0xe7, 0x7c, 0x35, 0xde, 0xf5, 0xaf, 0xb9, 0x51, 0x49, 0xd4, 0x3c, 0x2d,
        0x8c, 0x18,
    ];
    assert_eq!(hash_leaf(b""), expected);
}

#[test]
fn hash_leaf_known_answer() {
    let expected: [u8; 32] = [
        0xfa, 0x0a, 0x11, 0xd4, 0xb0, 0x96, 0xf6, 0xcb, 0xe3, 0xca, 0x2b, 0x4b, 0xf5, 0x57, 0x59,
        0xf5, 0x0a, 0x7c, 0xf9, 0x37, 0x62, 0xcc, 0x1a, 0x1a, 0x16, 0xea, 0xd7, 0xc3, 0x44, 0x86,
        0x38, 0x1e,
    ];
    assert_eq!(hash_leaf(b"abc"), expected);
}

#[test]
fn hash_node_known_answer() {
    let expected: [u8; 32] = [
        0x5b, 0x63, 0x55, 0x8b, 0x72, 0xd1, 0x49, 0x84, 0x57, 0xeb, 0x9f, 0x8d, 0xf3, 0x58, 0xa2,
        0xd9, 0xb2, 0xa6, 0xfe, 0x3a, 0xc0, 0x71, 0x57, 0xc9, 0x07, 0xc9, 0x6e, 0xcd, 0xe6, 0xd4,
        0x24, 0x9a,
    ];
    assert_eq!(hash_node(&[0u8; 32], &[1u8; 32], &[2u8; 32], &[3u8; 32]), expected);
}

#[test]
fn hash_leaf_is_sha3_of_tag_then_payload() {
    let payloads: [&[u8]; 4] = [b"", b"x", b"leaf data 1", &[0xa5u8; 1184]];
    for payload in payloads {
        assert_eq!(hash_leaf(payload), streamed(&[b"QUAD_LEAF:", payload]));
    }
}

#[test]
fn hash_leaf_is_not_the_bare_digest() {
    let payload = b"payload";
    assert_ne!(hash_leaf(payload), streamed(&[payload]));
}

#[test]
fn hash_node_is_sha3_of_children_in_order() {
    let a = hash_leaf(b"a");
    let b = hash_leaf(b"b");
    let c = hash_leaf(b"c");
    let d = hash_leaf(b"d");
    assert_eq!(hash_node(&a, &b, &c, &d), streamed(&[&a, &b, &c, &d]));
}

#[test]
fn hash_node_depends_on_child_order() {
    let a = hash_leaf(b"a");
    let b = hash_leaf(b"b");
    let c = hash_leaf(b"c");
    let d = hash_leaf(b"d");
    let straight = hash_node(&a, &b, &c, &d);
    assert_ne!(straight, hash_node(&b, &a, &c, &d));
    assert_ne!(straight, hash_node(&a, &b, &d, &c));
    assert_ne!(straight, hash_node(&d, &c, &b, &a));
}

#[test]
fn hash_leaf_separates_payloads() {
    assert_ne!(hash_leaf(b"x"), hash_leaf(b"y"));
    assert_ne!(hash_leaf(b""), hash_leaf(b"\0"));
}

#[test]
fn digest_eq_is_byte_equality() {
    let a = hash_leaf(b"a");
    let same = a;
    assert!(digest_eq(&a, &same));
    for position in [0usize, 15, 31] {
        let mut other = a;
        other[position] ^= 0x01;
        assert!(!digest_eq(&a, &other));
    }
}
