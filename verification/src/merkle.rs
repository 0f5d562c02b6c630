//! Fixed-depth Merkle trees over SHA-256: building an allowlist tree,
//! producing an inclusion proof for one leaf, and recomputing the root that a
//! leaf and its proof imply.

use vstd::prelude::*;

use crate::bytes::push_all;
use crate::commitment::digests_view;
use crate::digest::{sha256, sha256_spec};
use crate::model::{MerkleProof, TREE_DEPTH};

verus! {

/// The number of leaves of a full tree, 2^TREE_DEPTH.
pub open spec fn tree_width() -> nat {
    16
}

/// A parent node: the hash of its left child followed by its right child.
pub open spec fn hash_pair_spec(left: Seq<u8>, right: Seq<u8>) -> Seq<u8> {
    sha256_spec(left + right)
}

/// The position of the node on the path of leaf `idx`, `l` levels up.
pub open spec fn index_at(idx: nat, l: nat) -> nat
    decreases l,
{
    if l == 0 {
        idx
    } else {
        index_at(idx, (l - 1) as nat) / 2
    }
}

/// The node that a leaf and its first `n` siblings imply: at each level the
/// running node is the left child when the position there is even, the
/// right child when it is odd.
pub open spec fn path_root(leaf: Seq<u8>, siblings: Seq<Seq<u8>>, idx: nat, n: nat) -> Seq<u8>
    decreases n,
{
    if n == 0 {
        leaf
    } else {
        let below = path_root(leaf, siblings, idx, (n - 1) as nat);
        if index_at(idx, (n - 1) as nat) % 2 == 0 {
            hash_pair_spec(below, siblings[n - 1])
        } else {
            hash_pair_spec(siblings[n - 1], below)
        }
    }
}

/// The nodes of level `l` of the tree whose level 0 is `leaves`.
pub open spec fn tree_level(leaves: Seq<Seq<u8>>, l: nat) -> Seq<Seq<u8>>
    decreases l,
{
    if l == 0 {
        leaves
    } else {
        let below = tree_level(leaves, (l - 1) as nat);
        Seq::new(below.len() / 2, |j: int| hash_pair_spec(below[2 * j], below[2 * j + 1]))
    }
}

/// The leaves padded with all-zero leaves up to the full width.
pub open spec fn padded_leaves(leaves: Seq<Seq<u8>>) -> Seq<Seq<u8>> {
    leaves + Seq::new((tree_width() - leaves.len()) as nat, |i: int| Seq::new(32, |k: int| 0u8))
}

/// The sibling of position `i` on its level.
pub open spec fn sibling_index(i: nat) -> nat {
    if i % 2 == 0 {
        i + 1
    } else {
        (i - 1) as nat
    }
}

/// Hash two 32-byte nodes into their parent.
pub fn hash_pair(left: &[u8; 32], right: &[u8; 32]) -> (h: [u8; 32])
    ensures
        h@ == hash_pair_spec(left@, right@),
{
    let mut m: Vec<u8> = Vec::new();
    push_all(&mut m, left);
    push_all(&mut m, right);
    sha256(m.as_slice())
}

/// Recompute the Merkle root implied by `leaf` and `proof`.
pub fn merkle_root(leaf: &[u8; 32], proof: &MerkleProof) -> (root: [u8; 32])
    ensures
        root@ == path_root(
            leaf@,
            digests_view(proof.siblings@),
            proof.index_bits as nat,
            TREE_DEPTH as nat,
        ),
{
    let ghost sibs = digests_view(proof.siblings@);
    let mut cur = *leaf;
    let mut idx = proof.index_bits;
    let mut i: usize = 0;
    while i < TREE_DEPTH
        invariant
            i <= TREE_DEPTH,
            sibs == digests_view(proof.siblings@),
            proof.siblings@.len() == TREE_DEPTH,
            idx as nat == index_at(proof.index_bits as nat, i as nat),
            cur@ == path_root(leaf@, sibs, proof.index_bits as nat, i as nat),
        decreases TREE_DEPTH - i,
    {
        let sib = &proof.siblings[i];
        let even = idx & 1 == 0;
        assert(even == (idx % 2 == 0)) by (bit_vector)
            requires
                even == (idx & 1 == 0),
        ;
        cur = if even {
            hash_pair(&cur, sib)
        } else {
            hash_pair(sib, &cur)
        };
        let next = idx >> 1;
        assert(next == idx / 2) by (bit_vector)
            requires
                next == idx >> 1,
        ;
        idx = next;
        i += 1;
    }
    cur
}

/// Build all tree levels (level 0 = padded leaves) for a fixed-depth tree.
pub fn build_tree(leaves: Vec<[u8; 32]>) -> (levels: Vec<Vec<[u8; 32]>>)
    requires
        leaves@.len() <= tree_width(),
    ensures
        levels@.len() == TREE_DEPTH + 1,
        forall|l: int|
            0 <= l <= TREE_DEPTH ==> digests_view(#[trigger] levels@[l]@) == tree_level(
                padded_leaves(digests_view(leaves@)),
                l as nat,
            ),
{
    let ghost padded = padded_leaves(digests_view(leaves@));
    let mut level0 = leaves;
    let ghost orig = level0@;
    while level0.len() < 16
        invariant
            orig.len() <= level0@.len() <= 16,
            level0@.subrange(0, orig.len() as int) == orig,
            forall|k: int| orig.len() <= k < level0@.len() ==> (#[trigger] level0@[k])@ =~= Seq::new(32, |q: int| 0u8),
        decreases 16 - level0@.len(),
    {
        level0.push([0u8; 32]);
        proof {
            assert(level0@.subrange(0, orig.len() as int) =~= orig);
        }
    }
    assert(digests_view(level0@) =~= padded) by {
        assert forall|k: int| 0 <= k < 16 implies #[trigger] digests_view(level0@)[k] == padded[k] by {
            if k >= orig.len() {
            } else {
                assert(level0@[k] == level0@.subrange(0, orig.len() as int)[k]);
            }
        }
    }
    let mut levels: Vec<Vec<[u8; 32]>> = Vec::new();
    levels.push(level0);
    let mut l: usize = 0;
    while l < TREE_DEPTH
        invariant
            l <= TREE_DEPTH,
            levels@.len() == l + 1,
            forall|m: int| 0 <= m <= l ==> digests_view(#[trigger] levels@[m]@) == tree_level(padded, m as nat),
            padded.len() == 16,
            levels@[l as int]@.len() == level_width(l as nat),
            level_width(l as nat) <= 16,
        decreases TREE_DEPTH - l,
    {
        let cur = &levels[l];
        let half = cur.len() / 2;
        let mut next: Vec<[u8; 32]> = Vec::new();
        let mut j: usize = 0;
        while j < half
            invariant
                j <= half,
                half == cur@.len() / 2,
                cur@.len() <= 16,
                next@.len() == j,
                forall|q: int| 0 <= q < j ==> (#[trigger] next@[q])@ == hash_pair_spec(
                    cur@[2 * q]@,
                    cur@[2 * q + 1]@,
                ),
            decreases half - j,
        {
            let h = hash_pair(&cur[2 * j], &cur[2 * j + 1]);
            next.push(h);
            j += 1;
        }
        proof {
            lemma_level_width(l as nat);
            let below = tree_level(padded, l as nat);
            assert(digests_view(levels@[l as int]@) == below);
            assert(digests_view(next@) =~= tree_level(padded, (l + 1) as nat));
        }
        levels.push(next);
        l += 1;
    }
    levels
}

/// The number of nodes on level `l` of a full tree.
pub open spec fn level_width(l: nat) -> nat
    decreases l,
{
    if l == 0 {
        tree_width()
    } else {
        level_width((l - 1) as nat) / 2
    }
}

proof fn lemma_level_width(l: nat)
    requires
        l < TREE_DEPTH,
    ensures
        2 <= level_width(l) <= 16,
        level_width(l) % 2 == 0,
{
    reveal_with_fuel(level_width, 5);
}

/// The siblings along the path of leaf `idx` through the given levels.
pub open spec fn path_siblings(levels: Seq<Seq<Seq<u8>>>, idx: nat) -> Seq<Seq<u8>> {
    Seq::new(
        TREE_DEPTH as nat,
        |l: int| levels[l][sibling_index(index_at(idx, l as nat)) as int],
    )
}

/// Produce the inclusion proof (siblings + index bits) for leaf `idx`.
pub fn proof_for(levels: &[Vec<[u8; 32]>], idx: usize) -> (proof: MerkleProof)
    requires
        levels@.len() >= TREE_DEPTH,
        forall|l: int|
            0 <= l < TREE_DEPTH ==> sibling_index(index_at(idx as nat, l as nat)) < (
            #[trigger] levels@[l])@.len(),
    ensures
        proof.index_bits == idx as u32,
        digests_view(proof.siblings@) == path_siblings(
            Seq::new(levels@.len(), |l: int| digests_view(levels@[l]@)),
            idx as nat,
        ),
{
    let ghost lv = Seq::new(levels@.len(), |l: int| digests_view(levels@[l]@));
    let mut siblings = [[0u8; 32]; TREE_DEPTH];
    let mut i = idx;
    let mut level: usize = 0;
    while level < TREE_DEPTH
        invariant
            level <= TREE_DEPTH,
            levels@.len() >= TREE_DEPTH,
            lv == Seq::new(levels@.len(), |l: int| digests_view(levels@[l]@)),
            forall|l: int|
                0 <= l < TREE_DEPTH ==> sibling_index(index_at(idx as nat, l as nat)) < (
                #[trigger] levels@[l])@.len(),
            i as nat == index_at(idx as nat, level as nat),
            siblings@.len() == TREE_DEPTH,
            forall|l: int|
                0 <= l < level ==> (#[trigger] siblings@[l])@ == path_siblings(lv, idx as nat)[l],
        decreases TREE_DEPTH - level,
    {
        let s = i ^ 1;
        assert((i % 2 == 0 ==> s == i + 1) && (i % 2 == 1 ==> s == i - 1)) by (bit_vector)
            requires
                s == i ^ 1,
        ;
        assert(s as nat == sibling_index(i as nat));
        assert(levels@[level as int]@.len() > s);
        siblings[level] = levels[level][s];
        let next = i / 2;
        i = next;
        level += 1;
    }
    assert(digests_view(siblings@) =~= path_siblings(lv, idx as nat));
    MerkleProof { siblings, index_bits: idx as u32 }
}

/// On each level, the node on the path of leaf `idx` is the one at
/// `index_at(idx, n)`, and a leaf's path folds up to its level-`n` node.
proof fn lemma_path_root_is_tree_node(leaves: Seq<Seq<u8>>, idx: nat, n: nat)
    requires
        leaves.len() == tree_width(),
        idx < tree_width(),
        n <= TREE_DEPTH,
    ensures
        tree_level(leaves, n).len() == level_width(n),
        index_at(idx, n) < level_width(n),
        path_root(
            leaves[idx as int],
            path_siblings(Seq::new(TREE_DEPTH as nat + 1, |l: int| tree_level(leaves, l as nat)), idx),
            idx,
            n,
        ) == tree_level(leaves, n)[index_at(idx, n) as int],
    decreases n,
{
    let lv = Seq::new(TREE_DEPTH as nat + 1, |l: int| tree_level(leaves, l as nat));
    let sibs = path_siblings(lv, idx);
    if n > 0 {
        let m = (n - 1) as nat;
        lemma_path_root_is_tree_node(leaves, idx, m);
        lemma_level_width(m);
        let i = index_at(idx, m);
        let below = tree_level(leaves, m);
        assert(sibs[m as int] == below[sibling_index(i) as int]);
        let parent = i / 2;
        assert(tree_level(leaves, n)[parent as int] == hash_pair_spec(
            below[2 * parent as int],
            below[2 * parent as int + 1],
        ));
        if i % 2 == 0 {
            assert(2 * parent == i);
        } else {
            assert(2 * parent + 1 == i);
        }
    }
}

/// An inclusion proof built from a tree reconstructs that tree's root: for
/// any allowlist of at most 2^TREE_DEPTH leaves and any leaf `idx` of it, the
/// root that `merkle_root` recomputes from the leaf and the proof that
/// `proof_for` extracts from the levels of `build_tree` is the top node of
/// those levels.
pub proof fn lemma_proof_reconstructs_root(leaves: Seq<Seq<u8>>, idx: nat)
    requires
        leaves.len() <= tree_width(),
        idx < leaves.len(),
    ensures
        path_root(
            leaves[idx as int],
            path_siblings(
                Seq::new(
                    TREE_DEPTH as nat + 1,
                    |l: int| tree_level(padded_leaves(leaves), l as nat),
                ),
                idx,
            ),
            idx,
            TREE_DEPTH as nat,
        ) == tree_level(padded_leaves(leaves), TREE_DEPTH as nat)[0],
{
    let p = padded_leaves(leaves);
    assert(p[idx as int] == leaves[idx as int]);
    lemma_path_root_is_tree_node(p, idx, TREE_DEPTH as nat);
    reveal_with_fuel(index_at, 5);
    reveal_with_fuel(level_width, 5);
}

/// Every sibling on the path of a leaf of a full tree lies inside its level.
pub proof fn lemma_sibling_indices_in_range(leaves: Seq<Seq<u8>>, idx: nat)
    requires
        leaves.len() == tree_width(),
        idx < tree_width(),
    ensures
        forall|l: int|
            0 <= l < TREE_DEPTH ==> sibling_index(index_at(idx, l as nat)) < #[trigger] tree_level(
                leaves,
                l as nat,
            ).len(),
{
    assert forall|l: int| 0 <= l < TREE_DEPTH implies sibling_index(index_at(idx, l as nat))
        < #[trigger] tree_level(leaves, l as nat).len() by {
        lemma_path_root_is_tree_node(leaves, idx, l as nat);
        lemma_level_width(l as nat);
    }
}

/// The top level of a full tree is a single node.
pub proof fn lemma_root_level_single(leaves: Seq<Seq<u8>>)
    requires
        leaves.len() == tree_width(),
    ensures
        tree_level(leaves, TREE_DEPTH as nat).len() == 1,
{
    lemma_path_root_is_tree_node(leaves, 0, TREE_DEPTH as nat);
    reveal_with_fuel(level_width, 5);
}


/// The root a leaf and its proof imply, level by level: at level n the node
/// is the left child, hashed as H(node || sibling_n), when bit n of the index
/// is 0, and the right child, hashed as H(sibling_n || node), when it is 1,
/// with H the SHA-256 of the concatenation.
pub proof fn lemma_root_by_levels(leaf: Seq<u8>, sibs: Seq<Seq<u8>>, idx: nat)
    requires
        sibs.len() == TREE_DEPTH,
    ensures
        ({
            let n1 = if idx % 2 == 0 {
                sha256_spec(leaf + sibs[0])
            } else {
                sha256_spec(sibs[0] + leaf)
            };
            let n2 = if (idx / 2) % 2 == 0 {
                sha256_spec(n1 + sibs[1])
            } else {
                sha256_spec(sibs[1] + n1)
            };
            let n3 = if (idx / 4) % 2 == 0 {
                sha256_spec(n2 + sibs[2])
            } else {
                sha256_spec(sibs[2] + n2)
            };
            let n4 = if (idx / 8) % 2 == 0 {
                sha256_spec(n3 + sibs[3])
            } else {
                sha256_spec(sibs[3] + n3)
            };
            path_root(leaf, sibs, idx, TREE_DEPTH as nat) == n4
        }),
{
    reveal_with_fuel(path_root, 5);
    reveal_with_fuel(index_at, 5);
    assert(index_at(idx, 1) == idx / 2);
    assert(index_at(idx, 2) == idx / 4) by {
        assert(index_at(idx, 2) == (idx / 2) / 2);
        assert((idx / 2) / 2 == idx / 4) by (nonlinear_arith);
    }
    assert(index_at(idx, 3) == idx / 8) by {
        assert(index_at(idx, 3) == (idx / 4) / 2);
        assert((idx / 4) / 2 == idx / 8) by (nonlinear_arith);
    }
}

/// Every level of a tree pairs up the level below in order: node j of level
/// l + 1 is H(node 2j || node 2j + 1) of level l, with H the SHA-256 of the
/// concatenation, and level 0 is the leaves.
pub proof fn lemma_tree_levels(leaves: Seq<Seq<u8>>, l: nat)
    ensures
        tree_level(leaves, 0) == leaves,
        tree_level(leaves, l + 1).len() == tree_level(leaves, l).len() / 2,
        forall|j: int|
            0 <= j < tree_level(leaves, l + 1).len() ==> #[trigger] tree_level(leaves, l + 1)[j]
                == sha256_spec(tree_level(leaves, l)[2 * j] + tree_level(leaves, l)[2 * j + 1]),
{
}

} // verus!
