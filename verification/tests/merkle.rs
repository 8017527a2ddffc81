use direct_chunked::{merkle_root_from_path, RamMerkleTree};
use sha3::{Digest, Sha3_256};

fn node(left: [u8; 32], right: [u8; 32]) -> [u8; 32] {
    let mut hasher = Sha3_256::new();
    hasher.update(b"node");
    hasher.update(left);
    hasher.update(right);
    hasher.finalize().into()
}

fn leaf(value: u8) -> [u8; 32] {
    [value; 32]
}

#[test]
fn tree_over_four_leaves_has_the_expected_root() {
    let leaves = vec![leaf(1), leaf(2), leaf(3), leaf(4)];
    let tree = RamMerkleTree::new(leaves, &node);
    assert_eq!(tree.depth(), 2);
    let expected = node(node(leaf(1), leaf(2)), node(leaf(3), leaf(4)));
    assert_eq!(tree.root(), expected);
}

#[test]
fn single_leaf_tree_is_its_own_root() {
    let tree = RamMerkleTree::new(vec![leaf(7)], &node);
    assert_eq!(tree.depth(), 0);
    assert_eq!(tree.root(), leaf(7));
    assert!(tree.authentication_path(0).is_empty());
}

#[test]
fn every_authentication_path_recomputes_the_root() {
    let leaves: Vec<[u8; 32]> = (0..8).map(leaf).collect();
    let tree = RamMerkleTree::new(leaves.clone(), &node);
    for (index, value) in leaves.iter().enumerate() {
        let path = tree.authentication_path(index);
        assert_eq!(path.len(), 3);
        assert_eq!(
            merkle_root_from_path(*value, index, &path, &node),
            tree.root()
        );
    }
    let path = tree.authentication_path(5);
    assert_eq!(path[0], leaf(4));
    assert_ne!(
        merkle_root_from_path(leaf(9), 5, &path, &node),
        tree.root()
    );
}

#[test]
fn update_moves_the_root_along_the_old_path() {
    let leaves: Vec<[u8; 32]> = (0..4).map(leaf).collect();
    let mut tree = RamMerkleTree::new(leaves.clone(), &node);
    let path = tree.authentication_path(2);
    tree.update(2, leaf(42), &node);
    assert_eq!(tree.authentication_path(2), path);
    assert_eq!(tree.root(), merkle_root_from_path(leaf(42), 2, &path, &node));
    let mut rebuilt_leaves = leaves;
    rebuilt_leaves[2] = leaf(42);
    let rebuilt = RamMerkleTree::new(rebuilt_leaves, &node);
    assert_eq!(tree.root(), rebuilt.root());
    assert_eq!(tree.levels, rebuilt.levels);
}
