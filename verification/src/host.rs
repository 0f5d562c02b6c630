//! The prover side's witness building: the approved-exporter allowlist tree
//! with the seller's inclusion proof, and the issuer's signature over the
//! documents.

use vstd::prelude::*;
use ed25519_dalek::{Signer, SigningKey};

use crate::commitment::{digests_view, doc_digest, doc_digest_preimage, terms_digest, terms_digest_preimage};
use crate::compliance::bytes32_eq;
use crate::digest::{sha256, sha256_spec};
use crate::merkle::{
    build_tree, lemma_proof_reconstructs_root, lemma_sibling_indices_in_range, merkle_root, padded_leaves, path_root,
    path_siblings, proof_for, tree_level, tree_width,
};
use crate::model::{BillOfLading, Invoice, LcTerms, MerkleProof, TREE_DEPTH};

verus! {

/// Why no allowlist proof could be produced.
#[derive(Clone, Copy, Debug, PartialEq, Eq)]
pub enum AllowlistError {
    /// The leaf is not in the allowlist.
    NotInAllowlist,
    /// The constructed proof does not reconstruct the root.
    ProofDoesNotMatchRoot,
}

/// The position of the first occurrence of `leaf` in `leaves`, if any.
pub open spec fn first_position(leaves: Seq<Seq<u8>>, leaf: Seq<u8>) -> Option<nat> {
    if exists|i: int| 0 <= i < leaves.len() && leaves[i] == leaf {
        let i = choose|i: int|
            0 <= i < leaves.len() && leaves[i] == leaf && forall|k: int|
                0 <= k < i ==> leaves[k] != leaf;
        Some(i as nat)
    } else {
        None
    }
}

/// The index of the first leaf equal to `leaf`.
fn position_of(leaves: &Vec<[u8; 32]>, leaf: &[u8; 32]) -> (r: Option<usize>)
    ensures
        match r {
            Some(i) => i < leaves@.len() && leaves@[i as int]@ == leaf@ && forall|k: int|
                0 <= k < i ==> leaves@[k]@ != leaf@,
            None => forall|k: int| 0 <= k < leaves@.len() ==> leaves@[k]@ != leaf@,
        },
{
    let mut i: usize = 0;
    while i < leaves.len()
        invariant
            i <= leaves@.len(),
            forall|k: int| 0 <= k < i ==> leaves@[k]@ != leaf@,
        decreases leaves@.len() - i,
    {
        if bytes32_eq(&leaves[i], leaf) {
            return Some(i);
        }
        i += 1;
    }
    None
}

/// Build the allowlist tree over `leaves`, and the inclusion proof of the
/// first leaf equal to `leaf`. Returns the tree's root and the proof, after
/// checking that the proof reconstructs the root.
pub fn allowlist_proof(leaves: Vec<[u8; 32]>, leaf: &[u8; 32]) -> (r: Result<
    ([u8; 32], MerkleProof),
    AllowlistError,
>)
    requires
        leaves@.len() <= tree_width(),
    ensures
        first_position(digests_view(leaves@), leaf@) is None ==> r == Err::<
            ([u8; 32], MerkleProof),
            AllowlistError,
        >(AllowlistError::NotInAllowlist),
        first_position(digests_view(leaves@), leaf@) matches Some(idx) ==> r matches Ok(
            (root, proof),
        ) && {
            let levels = Seq::new(
                TREE_DEPTH as nat + 1,
                |l: int| tree_level(padded_leaves(digests_view(leaves@)), l as nat),
            );
            &&& root@ == levels[TREE_DEPTH as int][0]
            &&& proof.index_bits == idx
            &&& digests_view(proof.siblings@) == path_siblings(levels, idx)
            &&& path_root(leaf@, digests_view(proof.siblings@), idx, TREE_DEPTH as nat)
                == root@
        },
{
    let ghost lv = digests_view(leaves@);
    let pos = position_of(&leaves, leaf);
    let levels = build_tree(leaves);
    let idx = match pos {
        Some(i) => i,
        None => {
            proof {
                if first_position(lv, leaf@) is Some {
                    let w = choose|i: int| 0 <= i < lv.len() && lv[i] == leaf@;
                    assert(lv[w] == leaf@);
                }
            }
            return Err(AllowlistError::NotInAllowlist);
        },
    };
    proof {
        assert(lv[idx as int] == leaf@);
        let w = choose|i: int|
            0 <= i < lv.len() && lv[i] == leaf@ && forall|k: int| 0 <= k < i ==> lv[k] != leaf@;
        assert(lv[idx as int] == leaf@ && forall|k: int| 0 <= k < idx ==> lv[k] != leaf@);
        if w < idx {
            assert(lv[w] != leaf@);
        } else if w > idx {
            assert(lv[idx as int] != leaf@);
        }
        assert(first_position(lv, leaf@) == Some(idx as nat));
    }
    let ghost spec_levels = Seq::new(
        TREE_DEPTH as nat + 1,
        |l: int| tree_level(padded_leaves(lv), l as nat),
    );
    let ghost exec_levels = Seq::new(levels@.len(), |l: int| digests_view(levels@[l]@));
    proof {
        assert(exec_levels =~= spec_levels);
        assert(padded_leaves(lv).len() == tree_width());
        lemma_sibling_indices_in_range(padded_leaves(lv), idx as nat);
        assert forall|l: int| 0 <= l <= TREE_DEPTH implies (#[trigger] levels@[l])@.len()
            == tree_level(padded_leaves(lv), l as nat).len() by {
            assert(digests_view(levels@[l]@).len() == levels@[l]@.len());
        }
        crate::merkle::lemma_root_level_single(padded_leaves(lv));
    }
    let proof = proof_for(levels.as_slice(), idx);
    let root = levels[TREE_DEPTH][0];
    proof {
        lemma_proof_reconstructs_root(lv, idx as nat);
    }
    // The proof built here must reconstruct the root.
    let check = merkle_root(leaf, &proof);
    if !bytes32_eq(&check, &root) {
        return Err(AllowlistError::ProofDoesNotMatchRoot);
    }
    Ok((root, proof))
}

/// The Ed25519 public key that `ed25519_dalek` derives from a 32-byte secret.
pub uninterp spec fn ed25519_public_key(secret: Seq<u8>) -> Seq<u8>;

/// The Ed25519 signature that `ed25519_dalek` computes with the key derived
/// from a 32-byte secret over a message.
pub uninterp spec fn ed25519_signature(secret: Seq<u8>, message: Seq<u8>) -> Seq<u8>;

/// Builds the key with `ed25519_dalek::SigningKey::from_bytes`, and returns
/// `verifying_key().to_bytes()` with `sign(message).to_bytes()`.
///
/// Trusted: the two results are the values of the names above on the
/// secret and the message; nothing about Ed25519 itself is claimed.
#[verifier::external_body]
fn ed25519_key_and_signature(secret: &[u8; 32], message: &[u8]) -> (r: ([u8; 32], [u8; 64]))
    ensures
        r.0@ == ed25519_public_key(secret@),
        r.1@ == ed25519_signature(secret@, message@),
{
    let key = SigningKey::from_bytes(secret);
    (key.verifying_key().to_bytes(), key.sign(message).to_bytes())
}

/// An issuer's public key and its signature over the documents, split into
/// two 32-byte halves as `DocumentSet` stores it.
#[derive(Clone, Copy, Debug)]
pub struct IssuerSignature {
    pub public_key: [u8; 32],
    pub signature: [[u8; 32]; 2],
}

/// Sign the canonical digest of the documents with the issuer key derived
/// from `secret`.
pub fn sign_documents(secret: &[u8; 32], inv: &Invoice, bol: &BillOfLading) -> (s: IssuerSignature)
    ensures
        s.public_key@ == ed25519_public_key(secret@),
        s.signature[0]@ + s.signature[1]@ == ed25519_signature(
            secret@,
            sha256_spec(doc_digest_preimage(*inv, *bol)),
        ),
{
    let digest = doc_digest(inv, bol);
    let (public_key, sig) = ed25519_key_and_signature(secret, &digest);
    let mut halves = [[0u8; 32]; 2];
    let mut lo = [0u8; 32];
    let mut hi = [0u8; 32];
    let mut i: usize = 0;
    while i < 32
        invariant
            i <= 32,
            sig@.len() == 64,
            lo@.len() == 32,
            hi@.len() == 32,
            forall|k: int| 0 <= k < i ==> lo@[k] == sig@[k],
            forall|k: int| 0 <= k < i ==> hi@[k] == sig@[32 + k],
        decreases 32 - i,
    {
        lo[i] = sig[i];
        hi[i] = sig[32 + i];
        i += 1;
    }
    halves[0] = lo;
    halves[1] = hi;
    assert(halves[0]@ + halves[1]@ =~= sig@);
    IssuerSignature { public_key, signature: halves }
}

/// The unit price of an invoice whose documents may leave it out: the stated
/// price, or else the total over the quantity (a quantity of 0 counting as 1).
pub fn unit_price_or_default(amount: u64, quantity: u64, stated: Option<u64>) -> (p: u64)
    ensures
        p == (match stated {
            Some(u) => u,
            None => amount / (if quantity == 0 {
                1u64
            } else {
                quantity
            }),
        }),
{
    match stated {
        Some(u) => u,
        None => amount / if quantity == 0 {
            1
        } else {
            quantity
        },
    }
}

/// The master disclosure blinding of a reproducible run: the SHA-256 of the
/// terms digest. A deployment draws the blinding at random instead.
pub fn reproducible_blinding(terms: &LcTerms) -> (b: [u8; 32])
    ensures
        b@ == sha256_spec(sha256_spec(terms_digest_preimage(*terms))),
{
    let td = terms_digest(terms);
    sha256(&td)
}

} // verus!
