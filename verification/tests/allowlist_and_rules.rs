use bill_of_zero::commitment::{disclosure_commitment, doc_digest, id_from_name, terms_digest};
use bill_of_zero::compliance::{check_presentation, Violation};
use bill_of_zero::escrow::{Config, EscrowContract, EscrowError};
use bill_of_zero::host::{
    allowlist_proof, reproducible_blinding, sign_documents, unit_price_or_default, AllowlistError,
};
use bill_of_zero::journal::pack_journal;
use bill_of_zero::merkle::{build_tree, hash_pair, merkle_root, proof_for};
use bill_of_zero::model::{
    BillOfLading, DocumentSet, Invoice, LcTerms, MerkleProof, TREE_DEPTH,
};
use ed25519_dalek::{Signer, SigningKey};
use sha2::{Digest, Sha256};

fn names(ns: &[&str]) -> Vec<[u8; 32]> {
    ns.iter().map(|n| id_from_name(n)).collect()
}

#[test]
fn hash_pair_is_sha256_of_concatenation() {
    let l = [1u8; 32];
    let r = [2u8; 32];
    let mut h = Sha256::new();
    h.update(l);
    h.update(r);
    let expected: [u8; 32] = h.finalize().into();
    assert_eq!(hash_pair(&l, &r), expected);
    assert_ne!(hash_pair(&r, &l), expected);
}

#[test]
fn build_tree_pads_to_sixteen_leaves() {
    let leaves = names(&["a", "b", "c"]);
    let levels = build_tree(leaves.clone());
    assert_eq!(levels.len(), TREE_DEPTH + 1);
    assert_eq!(levels[0].len(), 16);
    assert_eq!(levels[0][2], leaves[2]);
    assert_eq!(levels[0][3], [0u8; 32]);
    assert_eq!(levels[1].len(), 8);
    assert_eq!(levels[1][0], hash_pair(&leaves[0], &leaves[1]));
    assert_eq!(levels[1][1], hash_pair(&leaves[2], &[0u8; 32]));
    assert_eq!(levels[4].len(), 1);
    assert_eq!(levels[4][0], hash_pair(&levels[3][0], &levels[3][1]));
}

#[test]
fn every_leaf_proof_reconstructs_root() {
    let leaves = names(&["Acme", "Globex", "Initech", "Umbrella", "Hooli"]);
    let levels = build_tree(leaves.clone());
    let root = levels[TREE_DEPTH][0];
    for (i, leaf) in leaves.iter().enumerate() {
        let p = proof_for(&levels, i);
        assert_eq!(p.index_bits, i as u32);
        assert_eq!(p.siblings[0], levels[0][i ^ 1]);
        assert_eq!(merkle_root(leaf, &p), root);
        // a different leaf with the same proof does not reach the root
        assert_ne!(merkle_root(&id_from_name("Mallory"), &p), root);
    }
}

#[test]
fn full_tree_of_sixteen() {
    let ns: Vec<String> = (0..16).map(|i| format!("exporter-{i}")).collect();
    let leaves: Vec<[u8; 32]> = ns.iter().map(|n| id_from_name(n)).collect();
    let levels = build_tree(leaves.clone());
    let p = proof_for(&levels, 15);
    assert_eq!(merkle_root(&leaves[15], &p), levels[4][0]);
}

#[test]
fn allowlist_proof_finds_seller() {
    let leaves = names(&["Acme", "Globex", "Initech"]);
    let (root, proof) = allowlist_proof(leaves.clone(), &id_from_name("Globex")).unwrap();
    assert_eq!(root, build_tree(leaves.clone())[TREE_DEPTH][0]);
    assert_eq!(proof.index_bits, 1);
    assert_eq!(merkle_root(&id_from_name("Globex"), &proof), root);
    assert_eq!(
        allowlist_proof(leaves, &id_from_name("Mallory")).unwrap_err(),
        AllowlistError::NotInAllowlist
    );
}

#[test]
fn allowlist_proof_takes_first_duplicate() {
    let leaves = names(&["Acme", "Globex", "Acme"]);
    let (_, proof) = allowlist_proof(leaves, &id_from_name("Acme")).unwrap();
    assert_eq!(proof.index_bits, 0);
}

struct Fixture {
    terms: LcTerms,
    docs: DocumentSet,
}

fn fixture() -> Fixture {
    let buyer = id_from_name("Buyer Corp");
    let seller = id_from_name("Acme Exports");
    let origin = id_from_name("Portugal");
    let approved = names(&["Globex", "Acme Exports", "Initech"]);
    let (approved_root, seller_merkle) = allowlist_proof(approved, &seller).unwrap();
    let origins = names(&["Portugal", "Spain"]);
    let (origins_root, origin_merkle) = allowlist_proof(origins, &origin).unwrap();
    let invoice = Invoice {
        amount: 95_000,
        quantity: 5_000,
        unit_price: 19,
        currency: 840,
        buyer_id: buyer,
        seller_id: seller,
    };
    let bill_of_lading = BillOfLading {
        ship_date: 1_735_603_200,
        buyer_id: buyer,
        seller_id: seller,
        origin_id: origin,
        bol_number: 42,
        carrier_id: id_from_name("Maersk"),
    };
    let sig = sign_documents(&[7u8; 32], &invoice, &bill_of_lading);
    let terms = LcTerms {
        lc_id: 1001,
        credit_limit: 100_000,
        deadline: 1_735_689_600,
        currency: 840,
        buyer_id: buyer,
        seller_id: seller,
        approved_root,
        origins_root,
        issuer_pubkey: sig.public_key,
        auditor_pubkey: [0u8; 32],
    };
    let docs = DocumentSet {
        invoice,
        bill_of_lading,
        buyer_balance: 150_000,
        seller_merkle,
        origin_merkle,
        issuer_sig: sig.signature,
        disclosure_blinding: [3u8; 32],
    };
    Fixture { terms, docs }
}

#[test]
fn sign_documents_matches_ed25519_dalek() {
    let f = fixture();
    let key = SigningKey::from_bytes(&[7u8; 32]);
    let sig = key.sign(&doc_digest(&f.docs.invoice, &f.docs.bill_of_lading)).to_bytes();
    assert_eq!(f.terms.issuer_pubkey, key.verifying_key().to_bytes());
    assert_eq!(&f.docs.issuer_sig[0][..], &sig[..32]);
    assert_eq!(&f.docs.issuer_sig[1][..], &sig[32..]);
}

#[test]
fn compliant_presentation_yields_journal() {
    let f = fixture();
    let j = check_presentation(&f.terms, &f.docs).unwrap();
    let expected = pack_journal(
        1001,
        95_000,
        &terms_digest(&f.terms),
        &disclosure_commitment(&f.docs),
    );
    assert_eq!(j, expected);
}

#[test]
fn compliant_journal_settles_the_matching_escrow() {
    let f = fixture();
    let j = check_presentation(&f.terms, &f.docs).unwrap();
    let config = |lc_id: u64, digest: [u8; 32]| Config {
        lc_id,
        terms_digest: digest,
        image_id: [0x11; 32],
        router: "ROUTER",
        token: "USDC",
        seller: "SELLER",
    };
    let mut escrow = EscrowContract::new();
    escrow.init(config(1001, terms_digest(&f.terms))).unwrap();
    let payout = escrow.settle(&j).unwrap();
    assert_eq!(payout.amount, 95_000);
    assert_eq!(payout.to, "SELLER");
    assert!(escrow.is_released());

    // an escrow bound to other terms refuses the same journal
    let mut lenient = f.terms.clone();
    lenient.credit_limit = 1_000_000;
    let mut other = EscrowContract::new();
    other.init(config(1001, terms_digest(&lenient))).unwrap();
    assert_eq!(other.settle(&j).unwrap_err(), EscrowError::TermsDigestMismatch);
    assert!(!other.is_released());
}

fn violation(f: &Fixture) -> Violation {
    check_presentation(&f.terms, &f.docs).unwrap_err()
}

#[test]
fn each_rule_is_enforced() {
    let mut f = fixture();
    f.docs.invoice.amount = 100_001;
    assert_eq!(violation(&f), Violation::AmountExceedsCreditLimit);

    let mut f = fixture();
    f.docs.bill_of_lading.ship_date = 1_735_689_601;
    assert_eq!(violation(&f), Violation::ShipmentAfterDeadline);

    let mut f = fixture();
    f.docs.invoice.buyer_id = [0u8; 32];
    assert_eq!(violation(&f), Violation::InvoiceBuyerMismatch);

    let mut f = fixture();
    f.docs.invoice.seller_id = [0u8; 32];
    assert_eq!(violation(&f), Violation::InvoiceSellerMismatch);

    let mut f = fixture();
    f.docs.bill_of_lading.buyer_id = [0u8; 32];
    assert_eq!(violation(&f), Violation::LadingBuyerMismatch);

    let mut f = fixture();
    f.docs.bill_of_lading.seller_id = [0u8; 32];
    assert_eq!(violation(&f), Violation::LadingSellerMismatch);

    let mut f = fixture();
    f.docs.buyer_balance = 99_999;
    assert_eq!(violation(&f), Violation::BalanceBelowCreditLimit);

    let mut f = fixture();
    f.docs.invoice.quantity = u64::MAX;
    assert_eq!(violation(&f), Violation::LineTotalOverflows);

    let mut f = fixture();
    f.docs.invoice.unit_price = 18;
    assert_eq!(violation(&f), Violation::AmountNotLineTotal);

    let mut f = fixture();
    f.docs.invoice.currency = 978;
    assert_eq!(violation(&f), Violation::CurrencyMismatch);

    let mut f = fixture();
    f.docs.seller_merkle.index_bits ^= 1;
    assert_eq!(violation(&f), Violation::SellerNotApproved);

    let mut f = fixture();
    f.docs.origin_merkle = MerkleProof { siblings: [[0u8; 32]; TREE_DEPTH], index_bits: 0 };
    assert_eq!(violation(&f), Violation::OriginNotAllowed);

    let mut f = fixture();
    f.docs.issuer_sig[0][0] ^= 1;
    assert_eq!(violation(&f), Violation::InvalidIssuerSignature);

    // tampering with a signed field after signing breaks the signature
    let mut f = fixture();
    f.docs.bill_of_lading.bol_number = 43;
    assert_eq!(violation(&f), Violation::InvalidIssuerSignature);
}

#[test]
fn malformed_issuer_key_is_reported() {
    // 0x02 followed by zeros with the top bit set is not a valid point encoding
    let mut f = fixture();
    let mut bad = [0u8; 32];
    bad[0] = 2;
    bad[31] = 0x80;
    assert!(ed25519_dalek::VerifyingKey::from_bytes(&bad).is_err());
    f.terms.issuer_pubkey = bad;
    assert_eq!(violation(&f), Violation::MalformedIssuerKey);
}

#[test]
fn first_broken_rule_wins() {
    let mut f = fixture();
    f.docs.invoice.amount = 100_001;
    f.docs.bill_of_lading.ship_date = u64::MAX;
    f.docs.buyer_balance = 0;
    assert_eq!(violation(&f), Violation::AmountExceedsCreditLimit);
}

#[test]
fn prover_defaults() {
    assert_eq!(unit_price_or_default(95_000, 5_000, Some(20)), 20);
    assert_eq!(unit_price_or_default(95_000, 5_000, None), 19);
    assert_eq!(unit_price_or_default(95_000, 0, None), 95_000);
    let f = fixture();
    let expected: [u8; 32] = Sha256::digest(terms_digest(&f.terms)).into();
    assert_eq!(reproducible_blinding(&f.terms), expected);
    assert_ne!(reproducible_blinding(&f.terms), terms_digest(&f.terms));
}
