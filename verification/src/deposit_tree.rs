//! The deposit tree: an append-only binary Merkle tree of fixed depth that
//! commits to the deposits in the order in which they were made.
//!
//! The tree keeps one digest per level, that of the last complete subtree
//! whose right sibling is still open, and so appends a leaf in time
//! proportional to its depth.

use crate::arith::{safe_add_usize, ArithError};
use crate::errors::MerkleTreeError;
use crate::hashing::{hash_concat, hash_pair, mix_in_length, mix_in_length_bytes};
use crate::types::{hash_of_bytes, lemma_hash_of_view, Hash256};
use vstd::arithmetic::power2::{lemma2_to64, lemma2_to64_rest, lemma_pow2_strictly_increases, lemma_pow2_unfold, pow2};
use vstd::prelude::*;

verus! {

/// The depth of the tree of the deposits of the external chain.
pub const DEPOSIT_TREE_DEPTH: usize = 32;

/// The largest depth that a tree can be made with.
pub const MAX_TREE_DEPTH: usize = 63;

/// The number of leaves that a tree of the given depth has room for.
pub open spec fn capacity(depth: nat) -> nat {
    pow2(depth)
}

/// The digest of a subtree all of whose leaves are empty.
pub open spec fn zero_hash(height: nat) -> Hash256
    decreases height,
{
    if height == 0 {
        Hash256::spec_zero()
    } else {
        hash_pair(zero_hash((height - 1) as nat), zero_hash((height - 1) as nat))
    }
}

/// The digest of the node at the given height and index of the tree over
/// the given leaves, where the places after the last leaf are empty. Nodes of
/// height 0 are the leaves; the node of index `i` has the nodes `2i` and
/// `2i + 1` of the height below as its children.
pub open spec fn merkle_node(leaves: Seq<Hash256>, height: nat, index: int) -> Hash256
    decreases height,
{
    if height == 0 {
        if 0 <= index < leaves.len() {
            leaves[index]
        } else {
            Hash256::spec_zero()
        }
    } else {
        hash_pair(
            merkle_node(leaves, (height - 1) as nat, 2 * index),
            merkle_node(leaves, (height - 1) as nat, 2 * index + 1),
        )
    }
}

/// The Merkle root of the given leaves in a tree of the given depth.
pub open spec fn merkle_root(leaves: Seq<Hash256>, depth: nat) -> Hash256 {
    merkle_node(leaves, depth, 0)
}

/// The root of a deposit tree: the Merkle root of its leaves with the count
/// of the deposits mixed in.
pub open spec fn deposit_tree_root(leaves: Seq<Hash256>, count: nat, depth: nat) -> Hash256 {
    hash_of_bytes(mix_in_length_bytes(merkle_root(leaves, depth)@, count))
}

/// The number halved the given number of times.
spec fn halved(n: nat, times: nat) -> nat
    decreases times,
{
    if times == 0 {
        n
    } else {
        halved(n, (times - 1) as nat) / 2
    }
}

proof fn lemma_halved_bounds(n: nat, times: nat)
    ensures
        halved(n, times) * pow2(times) <= n < (halved(n, times) + 1) * pow2(times),
    decreases times,
{
    if times == 0 {
        lemma2_to64();
    } else {
        let t = (times - 1) as nat;
        lemma_halved_bounds(n, t);
        lemma_pow2_unfold(times);
        let s = halved(n, t);
        let p = pow2(t);
        let q = s / 2;
        assert(q * (2 * p) <= s * p && (s + 1) * p <= (q + 1) * (2 * p)) by (nonlinear_arith)
            requires
                q == s / 2,
                p >= 0,
        ;
    }
}

/// Below the capacity nothing is left after halving `depth` times; at the
/// capacity, one.
proof fn lemma_halved_capacity(n: nat, depth: nat)
    requires
        n <= pow2(depth),
    ensures
        n < pow2(depth) ==> halved(n, depth) == 0,
        n == pow2(depth) ==> halved(n, depth) == 1,
{
    lemma_halved_bounds(n, depth);
    let s = halved(n, depth);
    let p = pow2(depth);
    assert(p > 0) by {
        vstd::arithmetic::power2::lemma_pow2_pos(depth);
    }
    assert(s <= 1 && (s == 1 ==> n >= p) && (s == 0 ==> n < p)) by (nonlinear_arith)
        requires
            s * p <= n,
            n < (s + 1) * p,
            n <= p,
            p > 0,
    ;
}

/// A node all of whose leaves lie after the last leaf is a zero node.
proof fn lemma_node_zero(leaves: Seq<Hash256>, height: nat, index: int)
    requires
        index > halved(leaves.len(), height),
    ensures
        merkle_node(leaves, height, index) == zero_hash(height),
    decreases height,
{
    if height > 0 {
        lemma_node_zero(leaves, (height - 1) as nat, 2 * index);
        lemma_node_zero(leaves, (height - 1) as nat, 2 * index + 1);
    }
}

/// A node all of whose leaves are present is not changed by another leaf.
proof fn lemma_node_stable(leaves: Seq<Hash256>, leaf: Hash256, height: nat, index: int)
    requires
        0 <= index < halved(leaves.len(), height),
    ensures
        merkle_node(leaves.push(leaf), height, index) == merkle_node(leaves, height, index),
    decreases height,
{
    if height > 0 {
        lemma_node_stable(leaves, leaf, (height - 1) as nat, 2 * index);
        lemma_node_stable(leaves, leaf, (height - 1) as nat, 2 * index + 1);
    }
}

/// How the halvings of a number change when the number grows by one: up to
/// the first even halving they grow by one, after it they stay.
proof fn lemma_halved_succ(n: nat, first_even: nat, times: nat)
    requires
        forall|g: nat| g < first_even ==> #[trigger] halved(n, g) % 2 == 1,
        halved(n, first_even) % 2 == 0,
    ensures
        times <= first_even ==> halved(n + 1, times) == halved(n, times) + 1,
        times > first_even ==> halved(n + 1, times) == halved(n, times),
    decreases times,
{
    if times > 0 {
        lemma_halved_succ(n, first_even, (times - 1) as nat);
    }
}

/// An append-only Merkle tree of fixed depth over the deposits, whose root
/// has the count of the deposits mixed in.
pub struct DepositDataTree {
    /// For each height, the digest of the last complete subtree of that height
    /// when its right sibling is still open.
    branch: Vec<Hash256>,
    /// The digests of the empty subtrees, by height.
    zero_hashes: Vec<Hash256>,
    /// The Merkle root of the leaves.
    tree_root: Hash256,
    leaf_count: u64,
    capacity: u64,
    mix_in_length: usize,
    depth: usize,
    leaves: Ghost<Seq<Hash256>>,
}

impl DepositDataTree {
    /// The leaves of the tree, in the order in which they were added.
    pub closed spec fn leaves(&self) -> Seq<Hash256> {
        self.leaves@
    }

    /// The count that is mixed into the root.
    pub closed spec fn count(&self) -> nat {
        self.mix_in_length as nat
    }

    /// The depth of the tree.
    pub closed spec fn depth(&self) -> nat {
        self.depth as nat
    }

    /// The tree is consistent: it holds no more leaves than it has room for,
    /// and what it keeps belongs to its leaves.
    pub closed spec fn wf(&self) -> bool {
        &&& self.depth <= MAX_TREE_DEPTH
        &&& self.capacity == pow2(self.depth as nat)
        &&& self.leaf_count == self.leaves@.len()
        &&& self.leaf_count <= self.capacity
        &&& self.branch@.len() == self.depth + 1
        &&& self.zero_hashes@.len() == self.depth + 1
        &&& forall|h: int| 0 <= h <= self.depth ==> #[trigger] self.zero_hashes@[h] == zero_hash(h as nat)
        &&& forall|h: int|
            0 <= h <= self.depth && halved(self.leaf_count as nat, h as nat) % 2 == 1
                ==> #[trigger] self.branch@[h] == merkle_node(
                self.leaves@,
                h as nat,
                halved(self.leaf_count as nat, h as nat) - 1,
            )
        &&& self.tree_root == merkle_root(self.leaves@, self.depth as nat)
    }

    /// A consistent tree holds no more leaves than it has room for.
    pub proof fn lemma_within_capacity(&self)
        requires
            self.wf(),
        ensures
            self.leaves().len() <= capacity(self.depth()),
            self.depth() <= MAX_TREE_DEPTH,
    {
    }

    /// Computes the Merkle root of the leaves from the digests kept per level.
    fn compute_tree_root(&self) -> (root: Hash256)
        requires
            self.depth <= MAX_TREE_DEPTH,
            self.capacity == pow2(self.depth as nat),
            self.leaf_count == self.leaves@.len(),
            self.leaf_count <= self.capacity,
            self.branch@.len() == self.depth + 1,
            self.zero_hashes@.len() == self.depth + 1,
            forall|h: int| 0 <= h <= self.depth ==> #[trigger] self.zero_hashes@[h] == zero_hash(h as nat),
            forall|h: int|
                0 <= h <= self.depth && halved(self.leaf_count as nat, h as nat) % 2 == 1
                    ==> #[trigger] self.branch@[h] == merkle_node(
                    self.leaves@,
                    h as nat,
                    halved(self.leaf_count as nat, h as nat) - 1,
                ),
        ensures
            root == merkle_root(self.leaves@, self.depth as nat),
    {
        let ghost n = self.leaf_count as nat;
        let mut node = Hash256::zero();
        let mut size: u64 = self.leaf_count;
        let mut height: usize = 0;
        while height < self.depth
            invariant
                height <= self.depth,
                n == self.leaf_count,
                n == self.leaves@.len(),
                size == halved(n, height as nat),
                node == merkle_node(self.leaves@, height as nat, size as int),
                self.branch@.len() == self.depth + 1,
                self.zero_hashes@.len() == self.depth + 1,
                forall|h: int| 0 <= h <= self.depth ==> #[trigger] self.zero_hashes@[h] == zero_hash(h as nat),
                forall|h: int|
                    0 <= h <= self.depth && halved(n, h as nat) % 2 == 1 ==> #[trigger] self.branch@[h]
                        == merkle_node(self.leaves@, h as nat, halved(n, h as nat) - 1),
            decreases self.depth - height,
        {
            if size % 2 == 1 {
                node = hash_concat(&self.branch[height], &node);
            } else {
                proof {
                    lemma_node_zero(self.leaves@, height as nat, size + 1);
                }
                node = hash_concat(&node, &self.zero_hashes[height]);
            }
            size = size / 2;
            height += 1;
        }
        proof {
            lemma_halved_capacity(n, self.depth as nat);
        }
        if size == 1 {
            self.branch[self.depth]
        } else {
            node
        }
    }

    /// Adds a leaf to a tree that has room for it.
    fn insert_leaf(&mut self, leaf: Hash256)
        requires
            old(self).wf(),
            old(self).leaf_count < old(self).capacity,
        ensures
            final(self).wf(),
            final(self).leaves@ == old(self).leaves@.push(leaf),
            final(self).depth == old(self).depth,
            final(self).mix_in_length == old(self).mix_in_length,
    {
        let ghost n = self.leaf_count as nat;
        let ghost before = self.leaves@;
        let ghost after = self.leaves@.push(leaf);
        proof {
            lemma_halved_capacity(n, self.depth as nat);
        }
        let mut node = leaf;
        let mut size: u64 = self.leaf_count;
        let mut height: usize = 0;
        while size % 2 == 1
            invariant
                height <= self.depth,
                self.wf(),
                before == self.leaves@,
                after == before.push(leaf),
                n == self.leaf_count,
                n == before.len(),
                halved(n, self.depth as nat) == 0,
                size == halved(n, height as nat),
                node == merkle_node(after, height as nat, size as int),
                forall|g: nat| g < height ==> #[trigger] halved(n, g) % 2 == 1,
            decreases self.depth - height,
        {
            proof {
                lemma_node_stable(before, leaf, height as nat, size - 1);
            }
            node = hash_concat(&self.branch[height], &node);
            size = size / 2;
            height += 1;
        }
        let ghost old_branch = self.branch@;
        self.branch.set(height, node);
        proof {
            lemma2_to64();
            lemma2_to64_rest();
            if self.depth < MAX_TREE_DEPTH {
                lemma_pow2_strictly_increases(self.depth as nat, MAX_TREE_DEPTH as nat);
            }
        }
        self.leaf_count = self.leaf_count + 1;
        self.leaves = Ghost(after);
        proof {
            assert forall|h: int|
                0 <= h <= self.depth && halved(self.leaf_count as nat, h as nat) % 2 == 1
                    implies #[trigger] self.branch@[h] == merkle_node(
                    after,
                    h as nat,
                    halved(self.leaf_count as nat, h as nat) - 1,
                ) by {
                lemma_halved_succ(n, height as nat, h as nat);
                if h > height {
                    lemma_node_stable(before, leaf, h as nat, halved(n, h as nat) - 1);
                    assert(self.branch@[h] == old_branch[h]);
                }
            }
        }
        self.tree_root = self.compute_tree_root();
    }

    /// Makes a tree of the given depth over the given leaves, with the given
    /// count to mix into its root.
    pub fn create(leaves: &[Hash256], mix_in_length: usize, depth: usize) -> (tree: DepositDataTree)
        requires
            depth <= MAX_TREE_DEPTH,
            leaves@.len() <= capacity(depth as nat),
        ensures
            tree.wf(),
            tree.leaves() == leaves@,
            tree.count() == mix_in_length,
            tree.depth() == depth,
    {
        let mut zero_hashes: Vec<Hash256> = Vec::new();
        let mut branch: Vec<Hash256> = Vec::new();
        let mut zero = Hash256::zero();
        let mut capacity: u64 = 1;
        zero_hashes.push(zero);
        branch.push(zero);
        proof {
            lemma2_to64();
            lemma2_to64_rest();
        }
        let mut height: usize = 0;
        while height < depth
            invariant
                height <= depth,
                depth <= MAX_TREE_DEPTH,
                capacity == pow2(height as nat),
                zero == zero_hash(height as nat),
                zero_hashes@.len() == height + 1,
                branch@.len() == height + 1,
                forall|h: int| 0 <= h <= height ==> #[trigger] zero_hashes@[h] == zero_hash(h as nat),
            decreases depth - height,
        {
            proof {
                lemma2_to64_rest();
                lemma_pow2_unfold((height + 1) as nat);
                if height + 1 < MAX_TREE_DEPTH {
                    lemma_pow2_strictly_increases((height + 1) as nat, MAX_TREE_DEPTH as nat);
                }
            }
            zero = hash_concat(&zero, &zero);
            zero_hashes.push(zero);
            branch.push(zero);
            capacity = capacity * 2;
            height += 1;
        }
        let mut tree = DepositDataTree {
            branch,
            zero_hashes,
            tree_root: zero,
            leaf_count: 0,
            capacity,
            mix_in_length,
            depth,
            leaves: Ghost(Seq::empty()),
        };
        proof {
            assert forall|h: nat| true implies #[trigger] halved(0, h) == 0 by {
                lemma_halved_zero(h);
            }
            lemma_node_zero_empty(depth as nat, 0);
            assert(tree.leaves@ =~= leaves@.take(0));
        }
        let mut i: usize = 0;
        while i < leaves.len()
            invariant
                i <= leaves@.len(),
                leaves@.len() <= pow2(depth as nat),
                tree.wf(),
                tree.leaves@ == leaves@.take(i as int),
                tree.depth == depth,
                tree.mix_in_length == mix_in_length,
            decreases leaves@.len() - i,
        {
            tree.insert_leaf(leaves[i]);
            i += 1;
            assert(tree.leaves@ =~= leaves@.take(i as int));
        }
        assert(leaves@.take(i as int) =~= leaves@);
        tree
    }

    /// The root of the tree: the Merkle root of its leaves with the count mixed in.
    pub fn root(&self) -> (root: Hash256)
        requires
            self.wf(),
        ensures
            root == deposit_tree_root(self.leaves(), self.count(), self.depth()),
    {
        let root = mix_in_length(&self.tree_root, self.mix_in_length);
        proof {
            lemma_hash_of_view(root);
        }
        root
    }

    /// What `push_leaf` returns for a tree with the given number of leaves and
    /// count: a full tree takes no leaf, and the count must be able to grow.
    pub open spec fn push_result(leaf_count: nat, count: nat, depth: nat) -> Result<(), MerkleTreeError> {
        if leaf_count >= capacity(depth) {
            Err(MerkleTreeError::MerkleTreeFull)
        } else if count + 1 > usize::MAX {
            Err(MerkleTreeError::ArithError(ArithError::Overflow))
        } else {
            Ok(())
        }
    }

    /// Appends a leaf and counts it. A tree that is full, or whose count
    /// cannot grow, is left as it was.
    pub fn push_leaf(&mut self, leaf: Hash256) -> (r: Result<(), MerkleTreeError>)
        requires
            old(self).wf(),
        ensures
            final(self).wf(),
            final(self).depth() == old(self).depth(),
            r == Self::push_result(old(self).leaves().len(), old(self).count(), old(self).depth()),
            r is Ok ==> final(self).leaves() == old(self).leaves().push(leaf) && final(self).count()
                == old(self).count() + 1,
            r is Err ==> final(self).leaves() == old(self).leaves() && final(self).count() == old(
                self,
            ).count(),
    {
        if self.leaf_count == self.capacity {
            return Err(MerkleTreeError::MerkleTreeFull);
        }
        let count = match safe_add_usize(self.mix_in_length, 1) {
            Ok(count) => count,
            Err(e) => {
                return Err(MerkleTreeError::ArithError(e));
            },
        };
        self.insert_leaf(leaf);
        self.mix_in_length = count;
        Ok(())
    }
}

proof fn lemma_halved_zero(times: nat)
    ensures
        halved(0, times) == 0,
    decreases times,
{
    if times > 0 {
        lemma_halved_zero((times - 1) as nat);
    }
}

/// Every node of the tree without leaves is a zero node.
proof fn lemma_node_zero_empty(height: nat, index: int)
    ensures
        merkle_node(Seq::<Hash256>::empty(), height, index) == zero_hash(height),
    decreases height,
{
    if height > 0 {
        lemma_node_zero_empty((height - 1) as nat, 2 * index);
        lemma_node_zero_empty((height - 1) as nat, 2 * index + 1);
    }
}

} // verus!
