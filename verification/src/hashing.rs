//! Merkle hashing: the digests that commit to deposits and to the nodes of a
//! binary Merkle tree, computed by the `tree_hash` crate.

use crate::types::{hash_of_bytes, lemma_hash_of_view, DepositData, Hash256};
use vstd::arithmetic::power::pow;
use vstd::prelude::*;

verus! {

/// What `tree_hash::merkle_root` returns for the given bytes and minimum
/// number of leaves: the root of the Merkle tree over the 32-byte chunks of
/// the bytes, padded with zero chunks.
pub uninterp spec fn merkle_root_bytes(bytes: Seq<u8>, minimum_leaf_count: nat) -> Seq<u8>;

/// What `tree_hash::mix_in_length` returns for the given root and length: the
/// digest of the root followed by the length.
pub uninterp spec fn mix_in_length_bytes(root: Seq<u8>, length: nat) -> Seq<u8>;

/// The largest number of bytes and of leaves that a Merkle root is asked for.
pub const MERKLE_ROOT_LIMIT: usize = 0x1000_0000;

/// `tree_hash::merkle_root`: the Merkle root of the given bytes. The limit
/// keeps the tree within the heights that the outside crate has padding for,
/// and the numbers of its nodes within 32 bits.
#[verifier::external_body]
pub(crate) fn merkle_root(bytes: &[u8], minimum_leaf_count: usize) -> (root: Hash256)
    requires
        bytes@.len() <= MERKLE_ROOT_LIMIT,
        minimum_leaf_count <= MERKLE_ROOT_LIMIT,
    ensures
        root@ == merkle_root_bytes(bytes@, minimum_leaf_count as nat),
{
    Hash256 { bytes: tree_hash::merkle_root(bytes, minimum_leaf_count).0 }
}

/// `tree_hash::mix_in_length`: the digest of a root and a length.
#[verifier::external_body]
pub(crate) fn mix_in_length(root: &Hash256, length: usize) -> (mixed: Hash256)
    ensures
        mixed@ == mix_in_length_bytes(root@, length as nat),
{
    Hash256 { bytes: tree_hash::mix_in_length(&tree_hash::Hash256::new(root.bytes), length).0 }
}

/// The byte of the given index in the little-endian form of a number.
pub open spec fn le_byte(value: u64, index: int) -> u8 {
    ((value as int / pow(256, index as nat)) % 256) as u8
}

/// A number as a 32-byte chunk: its eight bytes in little-endian order, then zeros.
pub open spec fn u64_chunk(value: u64) -> Seq<u8> {
    Seq::new(
        32,
        |i: int|
            if i < 8 {
                le_byte(value, i)
            } else {
                0u8
            },
    )
}

/// `TreeHash::tree_hash_root` of the `tree_hash` crate on `u64`: the number as
/// a 32-byte chunk.
#[verifier::external_body]
pub(crate) fn u64_tree_hash_root(value: u64) -> (root: Hash256)
    ensures
        root@ == u64_chunk(value),
{
    Hash256 { bytes: tree_hash::TreeHash::tree_hash_root(&value).0 }
}

/// The digest of an inner node of a Merkle tree, from those of its children.
pub open spec fn hash_pair(left: Hash256, right: Hash256) -> Hash256 {
    hash_of_bytes(merkle_root_bytes(left@ + right@, 0))
}

/// Appends bytes to a buffer.
fn append_bytes(buffer: &mut Vec<u8>, bytes: &[u8])
    ensures
        final(buffer)@ == old(buffer)@ + bytes@,
{
    let mut i: usize = 0;
    while i < bytes.len()
        invariant
            i <= bytes@.len(),
            buffer@ == old(buffer)@ + bytes@.take(i as int),
        decreases bytes@.len() - i,
    {
        buffer.push(bytes[i]);
        i += 1;
        assert(buffer@ =~= old(buffer)@ + bytes@.take(i as int));
    }
    assert(bytes@.take(i as int) =~= bytes@);
}

/// Computes the digest of an inner node from those of its children.
pub fn hash_concat(left: &Hash256, right: &Hash256) -> (parent: Hash256)
    ensures
        parent == hash_pair(*left, *right),
{
    let mut buffer: Vec<u8> = Vec::new();
    append_bytes(&mut buffer, &left.bytes);
    append_bytes(&mut buffer, &right.bytes);
    assert(buffer@ =~= left@ + right@);
    let parent = merkle_root(buffer.as_slice(), 0);
    proof {
        lemma_hash_of_view(parent);
    }
    parent
}

/// The commitment to a deposit: the Merkle root over its four fields, where
/// the key and the signature enter by the roots of their own chunks.
pub open spec fn deposit_data_root(data: DepositData) -> Hash256 {
    let pubkey_root = merkle_root_bytes(data.pubkey@, 2);
    let signature_root = merkle_root_bytes(data.signature@, 3);
    hash_of_bytes(
        merkle_root_bytes(
            pubkey_root + data.withdrawal_credentials@ + u64_chunk(data.amount) + signature_root,
            0,
        ),
    )
}

impl DepositData {
    /// Computes the commitment to this deposit, the leaf that it adds to the
    /// deposit tree.
    pub fn tree_hash_root(&self) -> (root: Hash256)
        ensures
            root == deposit_data_root(*self),
    {
        let pubkey_root = merkle_root(&self.pubkey, 2);
        let amount_root = u64_tree_hash_root(self.amount);
        let signature_root = merkle_root(&self.signature, 3);
        let mut buffer: Vec<u8> = Vec::new();
        append_bytes(&mut buffer, &pubkey_root.bytes);
        append_bytes(&mut buffer, &self.withdrawal_credentials.bytes);
        append_bytes(&mut buffer, &amount_root.bytes);
        append_bytes(&mut buffer, &signature_root.bytes);
        proof {
            lemma_hash_of_view(pubkey_root);
            lemma_hash_of_view(self.withdrawal_credentials);
            lemma_hash_of_view(amount_root);
            lemma_hash_of_view(signature_root);
        }
        let root = merkle_root(buffer.as_slice(), 0);
        proof {
            lemma_hash_of_view(root);
        }
        root
    }
}

} // verus!
