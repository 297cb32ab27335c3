//! Sorted-pair SHA-256 Merkle proofs.
//!
//! Siblings are concatenated smaller hash first, so a proof carries no left or right
//! flags.

use crate::bytes;
use crate::hash;
use crate::primitives;
use crate::primitives::BytesN;
use vstd::prelude::*;

verus! {

/// Largest number of receipts in a batch.
pub const MAX_BATCH_SIZE: u32 = 1000;

/// Length of the longest valid proof: the depth of a tree over [`MAX_BATCH_SIZE`]
/// leaves.
pub const MAX_PROOF_LEN: u32 = 10;

/// Two siblings as they are hashed: the smaller one first.
pub open spec fn paired(a: Seq<u8>, b: Seq<u8>) -> Seq<u8> {
    if bytes::be_nat(a) <= bytes::be_nat(b) {
        a + b
    } else {
        b + a
    }
}

/// The parent of two nodes: the digest of both, the smaller one first.
pub open spec fn parent(a: Seq<u8>, b: Seq<u8>) -> Seq<u8> {
    hash::sha256_of(paired(a, b))
}

/// The root that a leaf and its sibling path lead to.
pub open spec fn proof_root(leaf: Seq<u8>, proof: Seq<BytesN<32>>) -> Seq<u8>
    decreases proof.len(),
{
    if proof.len() == 0 {
        leaf
    } else {
        parent(proof_root(leaf, proof.drop_last()), proof.last()@)
    }
}

/// Whether a leaf and its sibling path lead to `root`.
pub open spec fn proves(root: BytesN<32>, leaf: BytesN<32>, proof: Seq<BytesN<32>>) -> bool {
    proof_root(leaf@, proof) == root@
}

/// The parent of two nodes.
fn hash_pair(a: &[u8; 32], b: &[u8; 32]) -> (r: [u8; 32])
    ensures
        r@ == parent(a@, b@),
{
    let mut combined: Vec<u8> = Vec::with_capacity(64);
    if bytes::at_most(a, b) {
        bytes::append(&mut combined, a);
        bytes::append(&mut combined, b);
        assert(combined@ =~= a@ + b@);
    } else {
        bytes::append(&mut combined, b);
        bytes::append(&mut combined, a);
        assert(combined@ =~= b@ + a@);
    }
    hash::sha256(combined.as_slice())
}

/// Folds a sibling path onto a leaf.
pub fn fold_proof(leaf: [u8; 32], proof: &Vec<BytesN<32>>) -> (r: [u8; 32])
    ensures
        r@ == proof_root(leaf@, proof@),
{
    let mut computed = leaf;
    let mut i: usize = 0;
    assert(proof@.take(0) =~= Seq::<BytesN<32>>::empty());
    while i < proof.len()
        invariant
            i <= proof.len(),
            computed@ == proof_root(leaf@, proof@.take(i as int)),
        decreases proof.len() - i,
    {
        assert(proof@.take(i + 1).drop_last() =~= proof@.take(i as int));
        computed = hash_pair(&computed, &proof[i].bytes);
        i = i + 1;
    }
    assert(proof@.take(proof.len() as int) =~= proof@);
    computed
}

/// Whether a leaf and its sibling path lead to `root`.
pub fn verify(root: BytesN<32>, leaf: BytesN<32>, proof: &Vec<BytesN<32>>) -> (r: bool)
    ensures
        r == proves(root, leaf, proof@),
{
    let computed = BytesN::from_array(fold_proof(leaf.bytes, proof));
    assert(computed@ =~= root@ ==> computed.bytes =~= root.bytes);
    computed == root
}

/// Whether two strings are a SHA-256 collision.
pub open spec fn collide(x: Seq<u8>, y: Seq<u8>) -> bool {
    x != y && hash::sha256_of(x) == hash::sha256_of(y)
}

/// A binary tree of hashes, of any shape.
pub enum MerkleTree {
    Leaf(BytesN<32>),
    Node(BytesN<32>, Box<MerkleTree>, Box<MerkleTree>),
}

impl MerkleTree {
    /// The hash at the top of the tree.
    pub open spec fn root(self) -> BytesN<32> {
        match self {
            MerkleTree::Leaf(leaf) => leaf,
            MerkleTree::Node(hash, _, _) => hash,
        }
    }

    /// Whether every inner hash is the parent of the two below it.
    pub open spec fn valid(self) -> bool
        decreases self,
    {
        match self {
            MerkleTree::Leaf(_) => true,
            MerkleTree::Node(hash, left, right) => {
                &&& hash@ == parent(left.root()@, right.root()@)
                &&& left.valid()
                &&& right.valid()
            },
        }
    }

    /// Whether `path`, read from the root (false is left), leads to a leaf.
    pub open spec fn reaches_leaf(self, path: Seq<bool>) -> bool
        decreases self,
    {
        match self {
            MerkleTree::Leaf(_) => path.len() == 0,
            MerkleTree::Node(_, left, right) => path.len() > 0 && (if path[0] {
                right.reaches_leaf(path.drop_first())
            } else {
                left.reaches_leaf(path.drop_first())
            }),
        }
    }

    /// The leaf at the end of a path.
    pub open spec fn leaf_at(self, path: Seq<bool>) -> BytesN<32>
        decreases self,
    {
        match self {
            MerkleTree::Leaf(leaf) => leaf,
            MerkleTree::Node(_, left, right) => if path[0] {
                right.leaf_at(path.drop_first())
            } else {
                left.leaf_at(path.drop_first())
            },
        }
    }

    /// The part of the tree at the end of a path; none if the path leaves the tree.
    pub open spec fn subtree(self, path: Seq<bool>) -> Option<MerkleTree>
        decreases self,
    {
        if path.len() == 0 {
            Some(self)
        } else {
            match self {
                MerkleTree::Leaf(_) => None,
                MerkleTree::Node(_, left, right) => if path[0] {
                    right.subtree(path.drop_first())
                } else {
                    left.subtree(path.drop_first())
                },
            }
        }
    }

    /// Whether every leaf is `depth` levels below the root.
    pub open spec fn balanced(self, depth: nat) -> bool
        decreases self,
    {
        match self {
            MerkleTree::Leaf(_) => depth == 0,
            MerkleTree::Node(_, left, right) => {
                &&& depth > 0
                &&& left.balanced((depth - 1) as nat)
                &&& right.balanced((depth - 1) as nat)
            },
        }
    }

    /// How a proof that verifies meets the tree: its last hashes lead down `path`, and
    /// its first `k` hashes, where `k` is what is left of it, go on from there.
    ///
    /// - With nothing left, `leaf` is the hash at the end of the path.
    /// - At a leaf of the tree, what is left computes that leaf.
    /// - At an inner node, the next hash of the proof collides: two different 64-byte
    ///   strings, the node's children and what the proof pairs there, have the same
    ///   SHA-256 digest.
    pub open spec fn accounts_for(
        self,
        leaf: BytesN<32>,
        proof: Seq<BytesN<32>>,
        path: Seq<bool>,
    ) -> bool {
        let k = proof.len() - path.len();
        &&& k >= 0
        &&& match self.subtree(path) {
            None => false,
            Some(MerkleTree::Leaf(h)) => if k == 0 {
                h == leaf
            } else {
                h@ == proof_root(leaf@, proof.take(k))
            },
            Some(MerkleTree::Node(h, left, right)) => if k == 0 {
                h == leaf
            } else {
                collide(
                    paired(left.root()@, right.root()@),
                    paired(proof_root(leaf@, proof.take(k - 1)), proof[k - 1]@),
                )
            },
        }
    }

    /// The hashes that branch off a path, leaf first.
    pub open spec fn siblings(self, path: Seq<bool>) -> Seq<BytesN<32>>
        decreases self,
    {
        match self {
            MerkleTree::Leaf(_) => Seq::empty(),
            MerkleTree::Node(_, left, right) => if path[0] {
                right.siblings(path.drop_first()).push(left.root())
            } else {
                left.siblings(path.drop_first()).push(right.root())
            },
        }
    }
}

proof fn lemma_be_nat_is_injective(a: Seq<u8>, b: Seq<u8>)
    requires
        a.len() == b.len(),
        bytes::be_nat(a) == bytes::be_nat(b),
    ensures
        a == b,
    decreases a.len(),
{
    if a.len() > 0 {
        lemma_be_nat_is_injective(a.drop_last(), b.drop_last());
        assert(a =~= a.drop_last().push(a.last()));
        assert(b =~= b.drop_last().push(b.last()));
    } else {
        assert(a =~= b);
    }
}

/// The order of siblings does not matter.
pub proof fn law_parent_is_symmetric(a: Seq<u8>, b: Seq<u8>)
    requires
        a.len() == b.len(),
    ensures
        parent(a, b) == parent(b, a),
{
    if bytes::be_nat(a) == bytes::be_nat(b) {
        lemma_be_nat_is_injective(a, b);
    }
}

/// Two siblings can be told from how they are hashed, but for their order.
proof fn lemma_paired_is_injective(a: Seq<u8>, b: Seq<u8>, c: Seq<u8>, d: Seq<u8>)
    requires
        a.len() == 32,
        b.len() == 32,
        d.len() == 32,
        paired(a, b) == paired(c, d),
    ensures
        (a == c && b == d) || (a == d && b == c),
{
    let x = paired(a, b);
    let y = paired(c, d);
    assert(x.len() == 64 && y.len() == c.len() + d.len());
    assert(x.take(32) =~= y.take(32));
    assert(x.skip(32) =~= y.skip(32));
    assert((a + b).take(32) =~= a && (a + b).skip(32) =~= b);
    assert((b + a).take(32) =~= b && (b + a).skip(32) =~= a);
    assert((c + d).take(32) =~= c && (c + d).skip(32) =~= d);
    assert((d + c).take(32) =~= d && (d + c).skip(32) =~= c);
}

/// Two pairs of siblings with the same parent are the same pair, or the two strings that
/// were hashed are a SHA-256 collision.
pub proof fn law_parent_binds_its_children(a: Seq<u8>, b: Seq<u8>, c: Seq<u8>, d: Seq<u8>)
    requires
        a.len() == 32,
        b.len() == 32,
        c.len() == 32,
        d.len() == 32,
        parent(a, b) == parent(c, d),
    ensures
        (a == c && b == d) || (a == d && b == c) || collide(paired(a, b), paired(c, d)),
{
    if paired(a, b) == paired(c, d) {
        lemma_paired_is_injective(a, b, c, d);
    }
}

/// What verifies is in the tree: a leaf and proof that lead to the root of a valid tree
/// follow a path of it, as [`MerkleTree::accounts_for`] says, which names a SHA-256
/// collision where they leave it.
///
/// A proof does not say how deep its tree is. So an inner node verifies with a proof that
/// is too short for a leaf, and so does whatever hashes, with some siblings, to a leaf of
/// the tree, with a proof that is too long. A caller who knows the depth is told more by
/// [`law_full_proofs_are_of_leaves`].
pub proof fn law_what_verifies_is_in_the_tree(
    tree: MerkleTree,
    leaf: BytesN<32>,
    proof: Seq<BytesN<32>>,
) -> (path: Seq<bool>)
    requires
        tree.valid(),
        proves(tree.root(), leaf, proof),
    ensures
        tree.accounts_for(leaf, proof, path),
    decreases tree,
{
    let empty = Seq::<bool>::empty();
    let n = proof.len();
    assert(proof.take(n as int) =~= proof);
    if n == 0 {
        primitives::lemma_bytes_are_their_view(tree.root(), leaf);
        empty
    } else {
        match tree {
            MerkleTree::Leaf(_) => empty,
            MerkleTree::Node(_, left, right) => {
                let below = proof.drop_last();
                let computed = proof_root(leaf@, below);
                let beside = proof.last()@;
                assert(proof.take(n - 1) =~= below);
                if paired(left.root()@, right.root()@) != paired(computed, beside) {
                    empty
                } else {
                    lemma_paired_is_injective(left.root()@, right.root()@, computed, beside);
                    let goes_right = computed != left.root()@;
                    let child = if goes_right {
                        *right
                    } else {
                        *left
                    };
                    let rest = law_what_verifies_is_in_the_tree(child, leaf, below);
                    let path = seq![goes_right] + rest;
                    let k = below.len() - rest.len();
                    assert(path.drop_first() =~= rest);
                    assert(proof.take(k) =~= below.take(k));
                    if k > 0 {
                        assert(proof.take(k - 1) =~= below.take(k - 1));
                        assert(proof[k - 1] == below[k - 1]);
                    }
                    path
                }
            },
        }
    }
}

/// A proof as long as the tree is deep is a proof of a leaf: it leads down a path to the
/// leaf at its end, or names a SHA-256 collision on the way.
pub proof fn law_full_proofs_are_of_leaves(
    tree: MerkleTree,
    leaf: BytesN<32>,
    proof: Seq<BytesN<32>>,
) -> (path: Seq<bool>)
    requires
        tree.valid(),
        tree.balanced(proof.len()),
        proves(tree.root(), leaf, proof),
    ensures
        tree.accounts_for(leaf, proof, path),
        (tree.reaches_leaf(path) && tree.leaf_at(path) == leaf) || (tree.subtree(path) matches Some(
            MerkleTree::Node(_, left, right),
        ) && collide(
            paired(left.root()@, right.root()@),
            paired(
                proof_root(leaf@, proof.take(proof.len() - path.len() - 1)),
                proof[proof.len() - path.len() - 1]@,
            ),
        )),
{
    let path = law_what_verifies_is_in_the_tree(tree, leaf, proof);
    lemma_balanced_subtree(tree, proof.len(), path);
    path
}

proof fn lemma_balanced_subtree(tree: MerkleTree, depth: nat, path: Seq<bool>)
    requires
        tree.balanced(depth),
        tree.subtree(path) is Some,
    ensures
        path.len() <= depth,
        tree.subtree(path)->0.balanced((depth - path.len()) as nat),
        tree.subtree(path)->0 matches MerkleTree::Leaf(h) ==> tree.reaches_leaf(path)
            && tree.leaf_at(path) == h,
    decreases tree,
{
    if path.len() > 0 {
        if let MerkleTree::Node(_, left, right) = tree {
            lemma_balanced_subtree(
                if path[0] {
                    *right
                } else {
                    *left
                },
                (depth - 1) as nat,
                path.drop_first(),
            );
        }
    }
}

/// Every leaf of every valid tree verifies against the tree's root with its sibling
/// path, which is as long as the leaf is deep.
pub proof fn law_every_leaf_verifies(tree: MerkleTree, path: Seq<bool>)
    requires
        tree.valid(),
        tree.reaches_leaf(path),
    ensures
        proves(tree.root(), tree.leaf_at(path), tree.siblings(path)),
        tree.siblings(path).len() == path.len(),
    decreases tree,
{
    if let MerkleTree::Node(_, left, right) = tree {
        let (below, beside) = if path[0] {
            (*right, *left)
        } else {
            (*left, *right)
        };
        law_every_leaf_verifies(below, path.drop_first());
        law_parent_is_symmetric(left.root()@, right.root()@);
        let proof = tree.siblings(path);
        assert(proof.drop_last() =~= below.siblings(path.drop_first()));
        assert(proof.last() == beside.root());
    }
}

/// [`MAX_PROOF_LEN`] is the depth of the smallest tree that has room for
/// [`MAX_BATCH_SIZE`] leaves.
pub proof fn law_max_proof_len_fits_max_batch_size()
    ensures
        vstd::arithmetic::power::pow(2, (MAX_PROOF_LEN - 1) as nat) < MAX_BATCH_SIZE
            <= vstd::arithmetic::power::pow(2, MAX_PROOF_LEN as nat),
{
    reveal_with_fuel(vstd::arithmetic::power::pow, 11);
}

} // verus!
