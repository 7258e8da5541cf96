use beacon_genesis::arith::ArithError;
use beacon_genesis::deposit_tree::{DepositDataTree, DEPOSIT_TREE_DEPTH};
use beacon_genesis::errors::MerkleTreeError;
use beacon_genesis::hashing::hash_concat;
use beacon_genesis::types::{DepositData, Hash256};

fn leaf(byte: u8) -> Hash256 {
    Hash256 { bytes: [byte; 32] }
}

fn hash(bytes: [u8; 32]) -> Hash256 {
    Hash256 { bytes }
}

const ZERO_HASH_1: [u8; 32] = [
    245, 165, 253, 66, 209, 106, 32, 48, 39, 152, 239, 110, 211, 9, 151, 155, 67, 0, 61, 35, 32,
    217, 240, 232, 234, 152, 49, 169, 39, 89, 251, 75,
];

#[test]
fn zero_hash_is_all_zero() {
    assert_eq!(Hash256::zero(), hash([0; 32]));
}

#[test]
fn hash_concat_of_zero_hashes() {
    assert_eq!(hash_concat(&Hash256::zero(), &Hash256::zero()), hash(ZERO_HASH_1));
}

#[test]
fn hash_concat_depends_on_the_order() {
    let expected = hash([
        248, 24, 175, 211, 122, 109, 195, 188, 146, 251, 68, 115, 16, 17, 39, 112, 6, 219, 78,
        250, 110, 144, 35, 205, 116, 104, 192, 35, 53, 210, 42, 77,
    ]);
    assert_eq!(hash_concat(&leaf(1), &leaf(2)), expected);
    assert_ne!(hash_concat(&leaf(2), &leaf(1)), expected);
}

#[test]
fn empty_tree_root() {
    let tree = DepositDataTree::create(&[], 0, DEPOSIT_TREE_DEPTH);
    assert_eq!(
        tree.root(),
        hash([
            215, 10, 35, 71, 49, 40, 92, 104, 4, 194, 164, 245, 103, 17, 221, 184, 200, 44, 153,
            116, 15, 32, 120, 84, 137, 16, 40, 175, 52, 226, 126, 94,
        ])
    );
}

#[test]
fn root_after_each_push() {
    let expected: [[u8; 32]; 3] = [
        [
            77, 219, 199, 137, 181, 136, 175, 197, 113, 254, 80, 71, 101, 110, 108, 45, 35, 154,
            118, 148, 7, 55, 152, 32, 183, 0, 199, 197, 160, 10, 244, 246,
        ],
        [
            112, 157, 148, 13, 124, 219, 131, 52, 182, 248, 248, 41, 1, 141, 155, 62, 36, 121,
            185, 152, 138, 154, 144, 62, 23, 210, 91, 140, 7, 220, 80, 174,
        ],
        [
            117, 208, 151, 243, 94, 148, 181, 147, 115, 57, 172, 169, 93, 132, 243, 79, 175, 98,
            235, 155, 196, 231, 110, 203, 160, 199, 179, 93, 35, 167, 24, 49,
        ],
    ];
    let mut tree = DepositDataTree::create(&[], 0, DEPOSIT_TREE_DEPTH);
    for (i, root) in expected.iter().enumerate() {
        assert_eq!(tree.push_leaf(leaf(i as u8 + 1)), Ok(()));
        assert_eq!(tree.root(), hash(*root));
    }
}

#[test]
fn root_of_five_leaves() {
    let mut tree = DepositDataTree::create(&[], 0, DEPOSIT_TREE_DEPTH);
    for i in 1..=5u8 {
        assert_eq!(tree.push_leaf(leaf(i)), Ok(()));
    }
    assert_eq!(
        tree.root(),
        hash([
            77, 29, 65, 89, 156, 21, 75, 74, 167, 120, 250, 88, 241, 97, 249, 112, 89, 238, 144,
            99, 70, 33, 210, 32, 166, 30, 160, 121, 162, 66, 27, 89,
        ])
    );
}

#[test]
fn created_with_leaves_equals_pushed() {
    let leaves = [leaf(1), leaf(2), leaf(3), leaf(4), leaf(5)];
    let created = DepositDataTree::create(&leaves, 5, DEPOSIT_TREE_DEPTH);
    let mut pushed = DepositDataTree::create(&[], 0, DEPOSIT_TREE_DEPTH);
    for l in leaves.iter() {
        assert_eq!(pushed.push_leaf(*l), Ok(()));
    }
    assert_eq!(created.root(), pushed.root());
}

#[test]
fn the_count_is_mixed_in_as_given() {
    let leaves = [leaf(1), leaf(2), leaf(3), leaf(4), leaf(5)];
    let tree = DepositDataTree::create(&leaves, 9, 3);
    assert_eq!(
        tree.root(),
        hash([
            24, 62, 7, 215, 80, 242, 13, 185, 39, 180, 251, 198, 149, 13, 4, 43, 93, 84, 86, 29,
            183, 254, 83, 207, 173, 235, 99, 181, 194, 112, 230, 127,
        ])
    );
}

#[test]
fn small_tree_fills_up() {
    let expected: [[u8; 32]; 5] = [
        [
            40, 186, 24, 52, 163, 167, 182, 87, 70, 12, 231, 159, 163, 161, 217, 9, 171, 136, 40,
            253, 85, 118, 89, 212, 208, 85, 74, 155, 219, 192, 236, 48,
        ],
        [
            201, 162, 248, 166, 13, 100, 110, 240, 90, 47, 66, 62, 157, 234, 120, 214, 98, 188,
            255, 237, 69, 154, 80, 50, 37, 178, 60, 52, 162, 167, 253, 112,
        ],
        [
            68, 98, 159, 220, 140, 81, 136, 94, 14, 213, 208, 66, 59, 255, 180, 201, 216, 109, 23,
            132, 103, 238, 59, 89, 160, 194, 99, 107, 118, 131, 206, 113,
        ],
        [
            87, 59, 17, 28, 74, 4, 104, 120, 183, 80, 41, 243, 34, 53, 243, 107, 79, 24, 178, 17,
            74, 48, 242, 27, 17, 83, 12, 66, 125, 5, 238, 100,
        ],
        [
            0, 34, 30, 177, 49, 163, 179, 44, 208, 41, 179, 131, 118, 110, 161, 227, 92, 102, 233,
            117, 199, 83, 11, 22, 175, 172, 109, 194, 251, 23, 165, 20,
        ],
    ];
    let mut tree = DepositDataTree::create(&[], 0, 2);
    assert_eq!(tree.root(), hash(expected[0]));
    for i in 1..=4u8 {
        assert_eq!(tree.push_leaf(leaf(i)), Ok(()));
        assert_eq!(tree.root(), hash(expected[i as usize]));
    }
    // The tree has room for four leaves: the fifth is refused and changes nothing.
    assert_eq!(tree.push_leaf(leaf(5)), Err(MerkleTreeError::MerkleTreeFull));
    assert_eq!(tree.root(), hash(expected[4]));
    assert_eq!(tree.push_leaf(leaf(6)), Err(MerkleTreeError::MerkleTreeFull));
}

#[test]
fn tree_of_depth_zero_holds_one_leaf() {
    let mut tree = DepositDataTree::create(&[], 0, 0);
    assert_eq!(tree.root(), hash(ZERO_HASH_1));
    assert_eq!(tree.push_leaf(leaf(7)), Ok(()));
    assert_eq!(
        tree.root(),
        hash([
            11, 136, 35, 220, 240, 92, 46, 206, 208, 208, 82, 128, 255, 91, 196, 84, 207, 101, 97,
            119, 80, 163, 189, 249, 237, 193, 51, 229, 240, 236, 212, 252,
        ])
    );
    assert_eq!(tree.push_leaf(leaf(8)), Err(MerkleTreeError::MerkleTreeFull));
}

#[test]
fn created_full_tree_takes_no_leaf() {
    let leaves = [leaf(1), leaf(2)];
    let mut tree = DepositDataTree::create(&leaves, 2, 1);
    assert_eq!(tree.push_leaf(leaf(3)), Err(MerkleTreeError::MerkleTreeFull));
}

#[test]
fn count_that_cannot_grow_is_an_error() {
    let mut tree = DepositDataTree::create(&[], usize::MAX, DEPOSIT_TREE_DEPTH);
    let before = tree.root();
    assert_eq!(
        tree.push_leaf(leaf(1)),
        Err(MerkleTreeError::ArithError(ArithError::Overflow))
    );
    assert_eq!(tree.root(), before);
}

#[test]
fn deepest_tree_can_be_made() {
    let mut tree = DepositDataTree::create(&[], 0, 63);
    assert_eq!(tree.push_leaf(leaf(1)), Ok(()));
    assert_ne!(tree.root(), Hash256::zero());
}

#[test]
fn deposit_data_root_of_repeated_bytes() {
    let data = DepositData {
        pubkey: [0xaa; 48],
        withdrawal_credentials: Hash256 { bytes: [0xbb; 32] },
        amount: 32_000_000_000,
        signature: [0xcc; 96],
    };
    assert_eq!(
        data.tree_hash_root(),
        hash([
            3, 171, 105, 83, 195, 17, 164, 67, 83, 163, 55, 139, 35, 77, 58, 217, 135, 17, 9, 126,
            6, 229, 231, 9, 53, 47, 97, 43, 1, 64, 188, 254,
        ])
    );
}

#[test]
fn deposit_data_root_of_counting_bytes() {
    let mut pubkey = [0u8; 48];
    let mut credentials = [0u8; 32];
    let mut signature = [0u8; 96];
    for i in 0..48 {
        pubkey[i] = i as u8;
    }
    for i in 0..32 {
        credentials[i] = i as u8;
    }
    for i in 0..96 {
        signature[i] = i as u8;
    }
    let data = DepositData {
        pubkey,
        withdrawal_credentials: Hash256 { bytes: credentials },
        amount: 0x0102030405060708,
        signature,
    };
    assert_eq!(
        data.tree_hash_root(),
        hash([
            29, 117, 249, 61, 120, 35, 108, 117, 129, 165, 183, 113, 93, 85, 151, 122, 120, 100,
            236, 52, 26, 69, 43, 137, 173, 213, 127, 39, 2, 185, 93, 195,
        ])
    );
}

#[test]
fn deposit_data_root_depends_on_the_amount() {
    let data = DepositData {
        pubkey: [0xaa; 48],
        withdrawal_credentials: Hash256 { bytes: [0xbb; 32] },
        amount: 32_000_000_000,
        signature: [0xcc; 96],
    };
    let other = DepositData { amount: 32_000_000_001, ..data };
    assert_ne!(data.tree_hash_root(), other.tree_hash_root());
}
