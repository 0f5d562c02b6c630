use bill_of_zero::commitment::{
    commit_field, commitment_from_fields, disclosure_commitment, disclosure_field_commitments,
    disclosure_opening, doc_digest, field_blinding, field_commitments_from_opening, id_from_name,
    terms_digest,
};
use bill_of_zero::journal::{pack_journal, parse_settlement_claim};
use bill_of_zero::model::{
    BillOfLading, DocumentSet, Invoice, LcTerms, MerkleProof, DISCLOSURE_FIELDS,
    DISCLOSURE_OPENING_LEN, JOURNAL_LEN, TREE_DEPTH,
};
use sha2::{Digest, Sha256};

fn sha(parts: &[&[u8]]) -> [u8; 32] {
    let mut h = Sha256::new();
    for p in parts {
        h.update(p);
    }
    h.finalize().into()
}

fn sample_docs() -> DocumentSet {
    DocumentSet {
        invoice: Invoice {
            amount: 95_000,
            quantity: 5_000,
            unit_price: 19,
            currency: 840,
            buyer_id: [1u8; 32],
            seller_id: [2u8; 32],
        },
        bill_of_lading: BillOfLading {
            ship_date: 1_735_603_200,
            buyer_id: [1u8; 32],
            seller_id: [2u8; 32],
            origin_id: [3u8; 32],
            bol_number: 77,
            carrier_id: [4u8; 32],
        },
        buyer_balance: 150_000,
        seller_merkle: MerkleProof { siblings: [[0u8; 32]; TREE_DEPTH], index_bits: 0 },
        origin_merkle: MerkleProof { siblings: [[0u8; 32]; TREE_DEPTH], index_bits: 0 },
        issuer_sig: [[5u8; 32], [6u8; 32]],
        disclosure_blinding: [9u8; 32],
    }
}

fn sample_terms() -> LcTerms {
    LcTerms {
        lc_id: 1001,
        credit_limit: 100_000,
        deadline: 1_735_689_600,
        currency: 840,
        buyer_id: [1u8; 32],
        seller_id: [2u8; 32],
        approved_root: [7u8; 32],
        origins_root: [8u8; 32],
        issuer_pubkey: [10u8; 32],
        auditor_pubkey: [11u8; 32],
    }
}

#[test]
fn hashing_matches_the_sha256_test_vector() {
    assert_eq!(id_from_name("abc"), sha(&[b"abc"]));
    let expected = hex_bytes("ba7816bf8f01cfea414140de5dae2223b00361a396177a9cb410ff61f20015ad");
    assert_eq!(id_from_name("abc").to_vec(), expected);
}

fn hex_bytes(s: &str) -> Vec<u8> {
    (0..s.len()).step_by(2).map(|i| u8::from_str_radix(&s[i..i + 2], 16).unwrap()).collect()
}

#[test]
fn id_from_name_hashes_utf8_name() {
    assert_eq!(id_from_name("Acme Exports Ltd"), sha(&[b"Acme Exports Ltd"]));
    assert_eq!(id_from_name("Müller GmbH"), sha(&["Müller GmbH".as_bytes()]));
    assert_ne!(id_from_name("Acme"), id_from_name("acme"));
}

#[test]
fn doc_digest_covers_every_field_in_order() {
    let d = sample_docs();
    let inv = &d.invoice;
    let bol = &d.bill_of_lading;
    let expected = sha(&[
        &inv.amount.to_le_bytes(),
        &inv.quantity.to_le_bytes(),
        &inv.unit_price.to_le_bytes(),
        &inv.currency.to_le_bytes(),
        &inv.buyer_id,
        &inv.seller_id,
        &bol.ship_date.to_le_bytes(),
        &bol.buyer_id,
        &bol.seller_id,
        &bol.origin_id,
        &bol.bol_number.to_le_bytes(),
        &bol.carrier_id,
    ]);
    assert_eq!(doc_digest(inv, bol), expected);
    let mut other = *bol;
    other.bol_number = 78;
    assert_ne!(doc_digest(inv, &other), expected);
}

#[test]
fn terms_digest_covers_every_term_in_order() {
    let t = sample_terms();
    let expected = sha(&[
        &t.lc_id.to_le_bytes(),
        &t.credit_limit.to_le_bytes(),
        &t.deadline.to_le_bytes(),
        &t.currency.to_le_bytes(),
        &t.buyer_id,
        &t.seller_id,
        &t.approved_root,
        &t.origins_root,
        &t.issuer_pubkey,
        &t.auditor_pubkey,
    ]);
    assert_eq!(terms_digest(&t), expected);
    let mut lenient = t;
    lenient.credit_limit = u64::MAX;
    assert_ne!(terms_digest(&lenient), expected);
}

#[test]
fn field_blinding_and_commitment_formulas() {
    let master = [9u8; 32];
    let b = field_blinding(&master, 3);
    assert_eq!(b, sha(&[b"bz-field", &[3u8], &master]));
    let c = commit_field(3, &master, &840u32.to_le_bytes());
    assert_eq!(c, sha(&[&[3u8], &840u32.to_le_bytes(), &b]));
    assert_ne!(commit_field(4, &master, &840u32.to_le_bytes()), c);
}

#[test]
fn opening_layout_and_recomputation() {
    let d = sample_docs();
    let o = disclosure_opening(&d);
    assert_eq!(o.len(), DISCLOSURE_OPENING_LEN);
    assert_eq!(DISCLOSURE_OPENING_LEN, 212);
    assert_eq!(&o[0..8], &95_000u64.to_le_bytes());
    assert_eq!(&o[24..28], &840u32.to_le_bytes());
    assert_eq!(&o[28..60], &[1u8; 32]);
    assert_eq!(&o[132..140], &77u64.to_le_bytes());
    assert_eq!(&o[172..180], &150_000u64.to_le_bytes());
    assert_eq!(&o[180..212], &[9u8; 32]);
    let fields = disclosure_field_commitments(&d);
    assert_eq!(fields.len(), DISCLOSURE_FIELDS);
    assert_eq!(field_commitments_from_opening(&o), fields);
    assert_eq!(fields[0], commit_field(0, &d.disclosure_blinding, &95_000u64.to_le_bytes()));
    assert_eq!(fields[10], commit_field(10, &d.disclosure_blinding, &150_000u64.to_le_bytes()));
}

#[test]
fn overall_commitment_hashes_field_commitments() {
    let d = sample_docs();
    let fields = disclosure_field_commitments(&d);
    let mut concat = Vec::new();
    for f in fields.iter() {
        concat.extend_from_slice(f);
    }
    assert_eq!(commitment_from_fields(&fields), sha(&[&concat]));
    assert_eq!(disclosure_commitment(&d), commitment_from_fields(&fields));
    let mut other = d;
    other.disclosure_blinding = [8u8; 32];
    assert_ne!(disclosure_commitment(&other), disclosure_commitment(&d));
}

#[test]
fn partial_disclosure_reassembles_commitment() {
    let d = sample_docs();
    let fields = disclosure_field_commitments(&d);
    let o = disclosure_opening(&d);
    let recomputed = field_commitments_from_opening(&o);
    // the auditor opens amount and ship date only
    let mut assembled = fields;
    assembled[0] = recomputed[0];
    assembled[6] = recomputed[6];
    assert_eq!(commitment_from_fields(&assembled), disclosure_commitment(&d));
}

#[test]
fn journal_layout_and_roundtrip() {
    let td = [0xaau8; 32];
    let dc = [0xbbu8; 32];
    let j = pack_journal(1001, 95_000, &td, &dc);
    assert_eq!(j.len(), JOURNAL_LEN);
    assert_eq!(&j[0..8], &1001u64.to_le_bytes());
    assert_eq!(&j[8..16], &95_000u64.to_le_bytes());
    assert_eq!(&j[16..48], &td);
    assert_eq!(&j[48..80], &dc);
    let c = parse_settlement_claim(&j);
    assert_eq!(c.lc_id, 1001);
    assert_eq!(c.release_amount, 95_000);
    assert_eq!(c.terms_digest, td);
}
