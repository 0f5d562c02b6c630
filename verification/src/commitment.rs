//! Canonical digests and the selective-disclosure commitment.
//!
//! Each disclosable field has a stable index. The on-chain commitment is
//! H(c_0 || c_1 || ... || c_{N-1}) where c_i = H(i || value_i || blinding_i)
//! and blinding_i = H("bz-field" || i || master). An auditor entitled to a
//! subset S can be given the openings (value_i, blinding_i) for i in S and the
//! raw c_j for j not in S, recompute the revealed c_i, and verify the same
//! overall commitment without learning the hidden fields.

use vstd::prelude::*;
use vstd::bytes::{
    spec_u32_from_le_bytes, spec_u32_to_le_bytes, spec_u64_from_le_bytes, spec_u64_to_le_bytes,
};
use vstd::utf8::encode_utf8;
use vstd::slice::slice_subrange;

use crate::bytes::{push_all, push_u32_le, push_u64_le};
use crate::digest::{sha256, sha256_spec};
use crate::model::{
    BillOfLading, DocumentSet, Invoice, LcTerms, DISCLOSURE_FIELDS, DISCLOSURE_OPENING_LEN,
    F_AMOUNT, F_BOL_NUMBER, F_BUYER_BALANCE, F_BUYER_ID, F_CARRIER_ID, F_CURRENCY, F_ORIGIN_ID,
    F_QUANTITY, F_SELLER_ID, F_SHIP_DATE, F_UNIT_PRICE,
};

verus! {

/// The little-endian encodings have their fixed widths.
pub proof fn lemma_le_widths()
    ensures
        forall|x: u64| #[trigger] spec_u64_to_le_bytes(x).len() == 8,
        forall|x: u32| #[trigger] spec_u32_to_le_bytes(x).len() == 4,
{
    vstd::bytes::lemma_auto_spec_u64_to_from_le_bytes();
    vstd::bytes::lemma_auto_spec_u32_to_from_le_bytes();
}

/// The views of a sequence of 32-byte digests.
pub open spec fn digests_view(s: Seq<[u8; 32]>) -> Seq<Seq<u8>> {
    s.map_values(|d: [u8; 32]| d@)
}

// --- party ids -------------------------------------------------------------

/// Derive a 32-byte party id from a human-readable legal name: the SHA-256 of
/// its UTF-8 bytes.
pub fn id_from_name(name: &str) -> (id: [u8; 32])
    ensures
        id@ == sha256_spec(encode_utf8(name@)),
{
    sha256(name.as_bytes())
}

// --- document and terms digests --------------------------------------------

/// The bytes the document digest covers: every document field, in order.
pub open spec fn doc_digest_preimage(inv: Invoice, bol: BillOfLading) -> Seq<u8> {
    spec_u64_to_le_bytes(inv.amount) + spec_u64_to_le_bytes(inv.quantity)
        + spec_u64_to_le_bytes(inv.unit_price) + spec_u32_to_le_bytes(inv.currency)
        + inv.buyer_id@ + inv.seller_id@ + spec_u64_to_le_bytes(bol.ship_date)
        + bol.buyer_id@ + bol.seller_id@ + bol.origin_id@
        + spec_u64_to_le_bytes(bol.bol_number) + bol.carrier_id@
}

/// Canonical digest of the trade documents. This is the message the issuer
/// signs and that the compliance check verifies the signature against.
pub fn doc_digest(inv: &Invoice, bol: &BillOfLading) -> (d: [u8; 32])
    ensures
        d@ == sha256_spec(doc_digest_preimage(*inv, *bol)),
{
    let mut m: Vec<u8> = Vec::new();
    push_u64_le(&mut m, inv.amount);
    push_u64_le(&mut m, inv.quantity);
    push_u64_le(&mut m, inv.unit_price);
    push_u32_le(&mut m, inv.currency);
    push_all(&mut m, &inv.buyer_id);
    push_all(&mut m, &inv.seller_id);
    push_u64_le(&mut m, bol.ship_date);
    push_all(&mut m, &bol.buyer_id);
    push_all(&mut m, &bol.seller_id);
    push_all(&mut m, &bol.origin_id);
    push_u64_le(&mut m, bol.bol_number);
    push_all(&mut m, &bol.carrier_id);
    assert(m@ =~= doc_digest_preimage(*inv, *bol));
    sha256(m.as_slice())
}

/// The bytes the terms digest covers: every term, in order.
pub open spec fn terms_digest_preimage(t: LcTerms) -> Seq<u8> {
    spec_u64_to_le_bytes(t.lc_id) + spec_u64_to_le_bytes(t.credit_limit)
        + spec_u64_to_le_bytes(t.deadline) + spec_u32_to_le_bytes(t.currency)
        + t.buyer_id@ + t.seller_id@ + t.approved_root@ + t.origins_root@
        + t.issuer_pubkey@ + t.auditor_pubkey@
}

/// Canonical digest of the LC terms, so the escrow can tell that a proof was
/// checked against the correct terms and not attacker-chosen lenient ones.
pub fn terms_digest(t: &LcTerms) -> (d: [u8; 32])
    ensures
        d@ == sha256_spec(terms_digest_preimage(*t)),
{
    let mut m: Vec<u8> = Vec::new();
    push_u64_le(&mut m, t.lc_id);
    push_u64_le(&mut m, t.credit_limit);
    push_u64_le(&mut m, t.deadline);
    push_u32_le(&mut m, t.currency);
    push_all(&mut m, &t.buyer_id);
    push_all(&mut m, &t.seller_id);
    push_all(&mut m, &t.approved_root);
    push_all(&mut m, &t.origins_root);
    push_all(&mut m, &t.issuer_pubkey);
    push_all(&mut m, &t.auditor_pubkey);
    assert(m@ =~= terms_digest_preimage(*t));
    sha256(m.as_slice())
}

// --- per-field commitments -------------------------------------------------

/// The domain-separation tag of a field blinding: the ASCII bytes "bz-field".
pub open spec fn field_tag() -> Seq<u8> {
    seq![0x62u8, 0x7au8, 0x2du8, 0x66u8, 0x69u8, 0x65u8, 0x6cu8, 0x64u8]
}

/// blinding_i = H("bz-field" || i || master).
pub open spec fn field_blinding_spec(master: Seq<u8>, idx: u8) -> Seq<u8> {
    sha256_spec(field_tag() + seq![idx] + master)
}

/// c_i = H(i || value || blinding_i).
pub open spec fn commit_field_spec(idx: u8, master: Seq<u8>, value: Seq<u8>) -> Seq<u8> {
    sha256_spec(seq![idx] + value + field_blinding_spec(master, idx))
}

/// Per-field blinding derived from the master blinding and the field index.
pub fn field_blinding(master: &[u8; 32], idx: u8) -> (b: [u8; 32])
    ensures
        b@ == field_blinding_spec(master@, idx),
{
    let mut m: Vec<u8> = Vec::new();
    m.push(0x62u8);
    m.push(0x7au8);
    m.push(0x2du8);
    m.push(0x66u8);
    m.push(0x69u8);
    m.push(0x65u8);
    m.push(0x6cu8);
    m.push(0x64u8);
    m.push(idx);
    push_all(&mut m, master);
    assert(m@ =~= field_tag() + seq![idx] + master@);
    sha256(m.as_slice())
}

/// Per-field commitment c_i = H(idx || value || blinding_i).
pub fn commit_field(idx: u8, master: &[u8; 32], value: &[u8]) -> (c: [u8; 32])
    ensures
        c@ == commit_field_spec(idx, master@, value@),
{
    let mut m: Vec<u8> = Vec::new();
    m.push(idx);
    push_all(&mut m, value);
    let b = field_blinding(master, idx);
    push_all(&mut m, &b);
    assert(m@ =~= seq![idx] + value@ + field_blinding_spec(master@, idx));
    sha256(m.as_slice())
}

/// The disclosable field values of a document set, in index order.
pub open spec fn disclosure_field_values(docs: DocumentSet) -> Seq<Seq<u8>> {
    seq![
        spec_u64_to_le_bytes(docs.invoice.amount),
        spec_u64_to_le_bytes(docs.invoice.quantity),
        spec_u64_to_le_bytes(docs.invoice.unit_price),
        spec_u32_to_le_bytes(docs.invoice.currency),
        docs.invoice.buyer_id@,
        docs.invoice.seller_id@,
        spec_u64_to_le_bytes(docs.bill_of_lading.ship_date),
        docs.bill_of_lading.origin_id@,
        spec_u64_to_le_bytes(docs.bill_of_lading.bol_number),
        docs.bill_of_lading.carrier_id@,
        spec_u64_to_le_bytes(docs.buyer_balance),
    ]
}

/// The commitments c_0 .. c_{n-1} of the given field values under `master`.
pub open spec fn field_commitments_spec(values: Seq<Seq<u8>>, master: Seq<u8>) -> Seq<Seq<u8>> {
    Seq::new(values.len(), |i: int| commit_field_spec(i as u8, master, values[i]))
}

/// Compute the per-field commitments for every disclosable field, in index order.
pub fn disclosure_field_commitments(docs: &DocumentSet) -> (out: [[u8; 32]; DISCLOSURE_FIELDS])
    ensures
        digests_view(out@) == field_commitments_spec(
            disclosure_field_values(*docs),
            docs.disclosure_blinding@,
        ),
{
    let m = &docs.disclosure_blinding;
    let inv = &docs.invoice;
    let bol = &docs.bill_of_lading;
    let out = [
        commit_field(F_AMOUNT, m, vstd::bytes::u64_to_le_bytes(inv.amount).as_slice()),
        commit_field(F_QUANTITY, m, vstd::bytes::u64_to_le_bytes(inv.quantity).as_slice()),
        commit_field(F_UNIT_PRICE, m, vstd::bytes::u64_to_le_bytes(inv.unit_price).as_slice()),
        commit_field(F_CURRENCY, m, vstd::bytes::u32_to_le_bytes(inv.currency).as_slice()),
        commit_field(F_BUYER_ID, m, &inv.buyer_id),
        commit_field(F_SELLER_ID, m, &inv.seller_id),
        commit_field(F_SHIP_DATE, m, vstd::bytes::u64_to_le_bytes(bol.ship_date).as_slice()),
        commit_field(F_ORIGIN_ID, m, &bol.origin_id),
        commit_field(F_BOL_NUMBER, m, vstd::bytes::u64_to_le_bytes(bol.bol_number).as_slice()),
        commit_field(F_CARRIER_ID, m, &bol.carrier_id),
        commit_field(F_BUYER_BALANCE, m, vstd::bytes::u64_to_le_bytes(docs.buyer_balance).as_slice()),
    ];
    assert(digests_view(out@) =~= field_commitments_spec(
        disclosure_field_values(*docs),
        docs.disclosure_blinding@,
    ));
    out
}

// --- the disclosure opening ------------------------------------------------

/// The opening blob: every field value in index order, then the master blinding.
pub open spec fn disclosure_opening_spec(docs: DocumentSet) -> Seq<u8> {
    spec_u64_to_le_bytes(docs.invoice.amount) + spec_u64_to_le_bytes(docs.invoice.quantity)
        + spec_u64_to_le_bytes(docs.invoice.unit_price) + spec_u32_to_le_bytes(docs.invoice.currency)
        + docs.invoice.buyer_id@ + docs.invoice.seller_id@
        + spec_u64_to_le_bytes(docs.bill_of_lading.ship_date) + docs.bill_of_lading.origin_id@
        + spec_u64_to_le_bytes(docs.bill_of_lading.bol_number) + docs.bill_of_lading.carrier_id@
        + spec_u64_to_le_bytes(docs.buyer_balance) + docs.disclosure_blinding@
}

/// Byte offsets of the fields inside an opening; field i spans
/// `[bound(i), bound(i + 1))` and the master blinding spans `[180, 212)`.
pub open spec fn opening_bounds() -> Seq<int> {
    seq![0int, 8, 16, 24, 28, 60, 92, 100, 132, 140, 172, 180]
}

/// The field values an opening blob holds, in index order.
pub open spec fn opening_fields(o: Seq<u8>) -> Seq<Seq<u8>> {
    Seq::new(
        DISCLOSURE_FIELDS as nat,
        |i: int| o.subrange(opening_bounds()[i], opening_bounds()[i + 1]),
    )
}

/// The master blinding an opening blob holds.
pub open spec fn opening_master(o: Seq<u8>) -> Seq<u8> {
    o.subrange(180, 212)
}

/// Serialize the disclosure opening: every field value in index order, then
/// the 32-byte master blinding.
pub fn disclosure_opening(docs: &DocumentSet) -> (out: [u8; DISCLOSURE_OPENING_LEN])
    ensures
        out@ == disclosure_opening_spec(*docs),
{
    let inv = &docs.invoice;
    let bol = &docs.bill_of_lading;
    let mut m: Vec<u8> = Vec::new();
    push_u64_le(&mut m, inv.amount);
    push_u64_le(&mut m, inv.quantity);
    push_u64_le(&mut m, inv.unit_price);
    push_u32_le(&mut m, inv.currency);
    push_all(&mut m, &inv.buyer_id);
    push_all(&mut m, &inv.seller_id);
    push_u64_le(&mut m, bol.ship_date);
    push_all(&mut m, &bol.origin_id);
    push_u64_le(&mut m, bol.bol_number);
    push_all(&mut m, &bol.carrier_id);
    push_u64_le(&mut m, docs.buyer_balance);
    push_all(&mut m, &docs.disclosure_blinding);
    proof {
        lemma_le_widths();
        assert(m@ =~= disclosure_opening_spec(*docs));
    }
    let mut out = [0u8; DISCLOSURE_OPENING_LEN];
    let mut i: usize = 0;
    while i < DISCLOSURE_OPENING_LEN
        invariant
            i <= DISCLOSURE_OPENING_LEN,
            m@.len() == DISCLOSURE_OPENING_LEN,
            out@.len() == DISCLOSURE_OPENING_LEN,
            forall|j: int| 0 <= j < i ==> out@[j] == m@[j],
        decreases DISCLOSURE_OPENING_LEN - i,
    {
        out[i] = m[i];
        i += 1;
    }
    assert(out@ =~= m@);
    out
}

/// Recompute the per-field commitments from a decrypted opening blob.
pub fn field_commitments_from_opening(o: &[u8; DISCLOSURE_OPENING_LEN]) -> (out: [[u8; 32];
    DISCLOSURE_FIELDS])
    ensures
        digests_view(out@) == field_commitments_spec(opening_fields(o@), opening_master(o@)),
{
    let mut master = [0u8; 32];
    let mut i: usize = 0;
    while i < 32
        invariant
            i <= 32,
            o@.len() == DISCLOSURE_OPENING_LEN,
            master@.len() == 32,
            forall|j: int| 0 <= j < i ==> master@[j] == o@[180 + j],
        decreases 32 - i,
    {
        master[i] = o[180 + i];
        i += 1;
    }
    assert(master@ =~= opening_master(o@));
    let s = o.as_slice();
    let out = [
        commit_field(F_AMOUNT, &master, slice_subrange(s, 0, 8)),
        commit_field(F_QUANTITY, &master, slice_subrange(s, 8, 16)),
        commit_field(F_UNIT_PRICE, &master, slice_subrange(s, 16, 24)),
        commit_field(F_CURRENCY, &master, slice_subrange(s, 24, 28)),
        commit_field(F_BUYER_ID, &master, slice_subrange(s, 28, 60)),
        commit_field(F_SELLER_ID, &master, slice_subrange(s, 60, 92)),
        commit_field(F_SHIP_DATE, &master, slice_subrange(s, 92, 100)),
        commit_field(F_ORIGIN_ID, &master, slice_subrange(s, 100, 132)),
        commit_field(F_BOL_NUMBER, &master, slice_subrange(s, 132, 140)),
        commit_field(F_CARRIER_ID, &master, slice_subrange(s, 140, 172)),
        commit_field(F_BUYER_BALANCE, &master, slice_subrange(s, 172, 180)),
    ];
    assert(digests_view(out@) =~= field_commitments_spec(opening_fields(o@), opening_master(o@)));
    out
}

/// Opening then recomputing gives back the document set's own commitments:
/// the field values and the master blinding an auditor reads from
/// `disclosure_opening(docs)` are exactly those `disclosure_field_commitments`
/// commits to, so both produce the same array.
pub proof fn lemma_opening_recomputes_commitments(docs: DocumentSet)
    ensures
        opening_fields(disclosure_opening_spec(docs)) == disclosure_field_values(docs),
        opening_master(disclosure_opening_spec(docs)) == docs.disclosure_blinding@,
        field_commitments_spec(
            opening_fields(disclosure_opening_spec(docs)),
            opening_master(disclosure_opening_spec(docs)),
        ) == field_commitments_spec(disclosure_field_values(docs), docs.disclosure_blinding@),
{
    lemma_le_widths();
    let o = disclosure_opening_spec(docs);
    let v = disclosure_field_values(docs);
    assert(o.len() == 212);
    assert forall|i: int| 0 <= i < 11 implies #[trigger] opening_fields(o)[i] =~= v[i] by {
        assert(o.subrange(opening_bounds()[i], opening_bounds()[i + 1]) =~= v[i]);
    }
    assert(opening_fields(o) =~= v);
    assert(opening_master(o) =~= docs.disclosure_blinding@);
}

// --- the overall commitment ------------------------------------------------

/// Combine per-field commitments into the overall commitment H(c_0 || ... || c_{n-1}).
pub fn commitment_from_fields(fields: &[[u8; 32]; DISCLOSURE_FIELDS]) -> (c: [u8; 32])
    ensures
        c@ == sha256_spec(digests_view(fields@).flatten()),
{
    let mut m: Vec<u8> = Vec::new();
    let mut i: usize = 0;
    while i < DISCLOSURE_FIELDS
        invariant
            i <= DISCLOSURE_FIELDS,
            fields@.len() == DISCLOSURE_FIELDS,
            m@ == digests_view(fields@).take(i as int).flatten(),
        decreases DISCLOSURE_FIELDS - i,
    {
        push_all(&mut m, &fields[i]);
        proof {
            let d = digests_view(fields@);
            assert(d.take(i + 1) =~= d.take(i as int).push(d[i as int]));
            d.take(i as int).lemma_flatten_push(d[i as int]);
        }
        i += 1;
    }
    assert(digests_view(fields@).take(DISCLOSURE_FIELDS as int) =~= digests_view(fields@));
    sha256(m.as_slice())
}

/// Overall selective-disclosure commitment: H(c_0 || c_1 || ... || c_{N-1}).
pub fn disclosure_commitment(docs: &DocumentSet) -> (c: [u8; 32])
    ensures
        c@ == sha256_spec(
            field_commitments_spec(
                disclosure_field_values(*docs),
                docs.disclosure_blinding@,
            ).flatten(),
        ),
{
    let fields = disclosure_field_commitments(docs);
    commitment_from_fields(&fields)
}

// --- laws --------------------------------------------------------------------

/// An auditor who decrypts the opening of a document set and recomputes the
/// commitment from it gets exactly the commitment that was settled on-chain.
pub proof fn lemma_auditor_recomputes_commitment(docs: DocumentSet)
    ensures
        sha256_spec(
            field_commitments_spec(
                opening_fields(disclosure_opening_spec(docs)),
                opening_master(disclosure_opening_spec(docs)),
            ).flatten(),
        ) == sha256_spec(
            field_commitments_spec(
                disclosure_field_values(docs),
                docs.disclosure_blinding@,
            ).flatten(),
        ),
{
    lemma_opening_recomputes_commitments(docs);
}

/// Granular disclosure: an auditor entitled to any subset of the fields,
/// given the openings of those fields and the raw commitments of the others,
/// reassembles the same per-field commitments, and so the same overall
/// commitment.
pub proof fn lemma_partial_disclosure_verifies(docs: DocumentSet, revealed: Set<int>)
    ensures
        ({
            let values = disclosure_field_values(docs);
            let master = docs.disclosure_blinding@;
            let settled = field_commitments_spec(values, master);
            let assembled = Seq::new(
                DISCLOSURE_FIELDS as nat,
                |i: int|
                    if revealed.contains(i) {
                        commit_field_spec(i as u8, master, values[i])
                    } else {
                        settled[i]
                    },
            );
            &&& assembled == settled
            &&& sha256_spec(assembled.flatten()) == sha256_spec(settled.flatten())
        }),
{
    let values = disclosure_field_values(docs);
    let master = docs.disclosure_blinding@;
    let settled = field_commitments_spec(values, master);
    let assembled = Seq::new(
        DISCLOSURE_FIELDS as nat,
        |i: int|
            if revealed.contains(i) {
                commit_field_spec(i as u8, master, values[i])
            } else {
                settled[i]
            },
    );
    assert(assembled =~= settled);
}

/// The document digest covers every document field: two invoice and
/// bill-of-lading pairs with the same digest preimage agree on every field,
/// so a signature over the digest pins the exact documents.
pub proof fn lemma_doc_digest_preimage_injective(
    inv1: Invoice,
    bol1: BillOfLading,
    inv2: Invoice,
    bol2: BillOfLading,
)
    requires
        doc_digest_preimage(inv1, bol1) == doc_digest_preimage(inv2, bol2),
    ensures
        inv1.amount == inv2.amount,
        inv1.quantity == inv2.quantity,
        inv1.unit_price == inv2.unit_price,
        inv1.currency == inv2.currency,
        inv1.buyer_id@ == inv2.buyer_id@,
        inv1.seller_id@ == inv2.seller_id@,
        bol1.ship_date == bol2.ship_date,
        bol1.buyer_id@ == bol2.buyer_id@,
        bol1.seller_id@ == bol2.seller_id@,
        bol1.origin_id@ == bol2.origin_id@,
        bol1.bol_number == bol2.bol_number,
        bol1.carrier_id@ == bol2.carrier_id@,
{
    lemma_le_widths();
    vstd::bytes::lemma_auto_spec_u64_to_from_le_bytes();
    vstd::bytes::lemma_auto_spec_u32_to_from_le_bytes();
    let p1 = doc_digest_preimage(inv1, bol1);
    let p2 = doc_digest_preimage(inv2, bol2);
    assert(p1.subrange(0, 8) =~= spec_u64_to_le_bytes(inv1.amount));
    assert(p2.subrange(0, 8) =~= spec_u64_to_le_bytes(inv2.amount));
    assert(p1.subrange(8, 16) =~= spec_u64_to_le_bytes(inv1.quantity));
    assert(p2.subrange(8, 16) =~= spec_u64_to_le_bytes(inv2.quantity));
    assert(p1.subrange(16, 24) =~= spec_u64_to_le_bytes(inv1.unit_price));
    assert(p2.subrange(16, 24) =~= spec_u64_to_le_bytes(inv2.unit_price));
    assert(p1.subrange(24, 28) =~= spec_u32_to_le_bytes(inv1.currency));
    assert(p2.subrange(24, 28) =~= spec_u32_to_le_bytes(inv2.currency));
    assert(p1.subrange(28, 60) =~= inv1.buyer_id@);
    assert(p2.subrange(28, 60) =~= inv2.buyer_id@);
    assert(p1.subrange(60, 92) =~= inv1.seller_id@);
    assert(p2.subrange(60, 92) =~= inv2.seller_id@);
    assert(p1.subrange(92, 100) =~= spec_u64_to_le_bytes(bol1.ship_date));
    assert(p2.subrange(92, 100) =~= spec_u64_to_le_bytes(bol2.ship_date));
    assert(p1.subrange(100, 132) =~= bol1.buyer_id@);
    assert(p2.subrange(100, 132) =~= bol2.buyer_id@);
    assert(p1.subrange(132, 164) =~= bol1.seller_id@);
    assert(p2.subrange(132, 164) =~= bol2.seller_id@);
    assert(p1.subrange(164, 196) =~= bol1.origin_id@);
    assert(p2.subrange(164, 196) =~= bol2.origin_id@);
    assert(p1.subrange(196, 204) =~= spec_u64_to_le_bytes(bol1.bol_number));
    assert(p2.subrange(196, 204) =~= spec_u64_to_le_bytes(bol2.bol_number));
    assert(p1.subrange(204, 236) =~= bol1.carrier_id@);
    assert(p2.subrange(204, 236) =~= bol2.carrier_id@);
}

/// The terms digest covers every term: two sets of LC terms with the same
/// digest preimage agree on every term, so a proof bound to the digest is
/// bound to these exact terms.
pub proof fn lemma_terms_digest_preimage_injective(t1: LcTerms, t2: LcTerms)
    requires
        terms_digest_preimage(t1) == terms_digest_preimage(t2),
    ensures
        t1.lc_id == t2.lc_id,
        t1.credit_limit == t2.credit_limit,
        t1.deadline == t2.deadline,
        t1.currency == t2.currency,
        t1.buyer_id@ == t2.buyer_id@,
        t1.seller_id@ == t2.seller_id@,
        t1.approved_root@ == t2.approved_root@,
        t1.origins_root@ == t2.origins_root@,
        t1.issuer_pubkey@ == t2.issuer_pubkey@,
        t1.auditor_pubkey@ == t2.auditor_pubkey@,
{
    lemma_le_widths();
    vstd::bytes::lemma_auto_spec_u64_to_from_le_bytes();
    vstd::bytes::lemma_auto_spec_u32_to_from_le_bytes();
    let p1 = terms_digest_preimage(t1);
    let p2 = terms_digest_preimage(t2);
    assert(p1.subrange(0, 8) =~= spec_u64_to_le_bytes(t1.lc_id));
    assert(p2.subrange(0, 8) =~= spec_u64_to_le_bytes(t2.lc_id));
    assert(p1.subrange(8, 16) =~= spec_u64_to_le_bytes(t1.credit_limit));
    assert(p2.subrange(8, 16) =~= spec_u64_to_le_bytes(t2.credit_limit));
    assert(p1.subrange(16, 24) =~= spec_u64_to_le_bytes(t1.deadline));
    assert(p2.subrange(16, 24) =~= spec_u64_to_le_bytes(t2.deadline));
    assert(p1.subrange(24, 28) =~= spec_u32_to_le_bytes(t1.currency));
    assert(p2.subrange(24, 28) =~= spec_u32_to_le_bytes(t2.currency));
    assert(p1.subrange(28, 60) =~= t1.buyer_id@);
    assert(p2.subrange(28, 60) =~= t2.buyer_id@);
    assert(p1.subrange(60, 92) =~= t1.seller_id@);
    assert(p2.subrange(60, 92) =~= t2.seller_id@);
    assert(p1.subrange(92, 124) =~= t1.approved_root@);
    assert(p2.subrange(92, 124) =~= t2.approved_root@);
    assert(p1.subrange(124, 156) =~= t1.origins_root@);
    assert(p2.subrange(124, 156) =~= t2.origins_root@);
    assert(p1.subrange(156, 188) =~= t1.issuer_pubkey@);
    assert(p2.subrange(156, 188) =~= t2.issuer_pubkey@);
    assert(p1.subrange(188, 220) =~= t1.auditor_pubkey@);
    assert(p2.subrange(188, 220) =~= t2.auditor_pubkey@);
}


/// Each slot of the opening holds its documented field: the amount at
/// [0..8], the quantity at [8..16], the unit price at [16..24], the currency
/// at [24..28], the buyer at [28..60], the seller at [60..92], the ship date
/// at [92..100], the origin at [100..132], the bill-of-lading number at
/// [132..140], the carrier at [140..172], the buyer's balance at [172..180]
/// and the master blinding at [180..212], integers little-endian.
pub proof fn lemma_opening_slots(docs: DocumentSet)
    ensures
        ({
            let o = disclosure_opening_spec(docs);
            &&& o.len() == 212
            &&& spec_u64_from_le_bytes(o.subrange(0, 8)) == docs.invoice.amount
            &&& spec_u64_from_le_bytes(o.subrange(8, 16)) == docs.invoice.quantity
            &&& spec_u64_from_le_bytes(o.subrange(16, 24)) == docs.invoice.unit_price
            &&& spec_u32_from_le_bytes(o.subrange(24, 28)) == docs.invoice.currency
            &&& o.subrange(28, 60) == docs.invoice.buyer_id@
            &&& o.subrange(60, 92) == docs.invoice.seller_id@
            &&& spec_u64_from_le_bytes(o.subrange(92, 100)) == docs.bill_of_lading.ship_date
            &&& o.subrange(100, 132) == docs.bill_of_lading.origin_id@
            &&& spec_u64_from_le_bytes(o.subrange(132, 140)) == docs.bill_of_lading.bol_number
            &&& o.subrange(140, 172) == docs.bill_of_lading.carrier_id@
            &&& spec_u64_from_le_bytes(o.subrange(172, 180)) == docs.buyer_balance
            &&& o.subrange(180, 212) == docs.disclosure_blinding@
        }),
{
    lemma_le_widths();
    vstd::bytes::lemma_auto_spec_u64_to_from_le_bytes();
    vstd::bytes::lemma_auto_spec_u32_to_from_le_bytes();
    let o = disclosure_opening_spec(docs);
    assert(o.subrange(0, 8) =~= spec_u64_to_le_bytes(docs.invoice.amount));
    assert(o.subrange(8, 16) =~= spec_u64_to_le_bytes(docs.invoice.quantity));
    assert(o.subrange(16, 24) =~= spec_u64_to_le_bytes(docs.invoice.unit_price));
    assert(o.subrange(24, 28) =~= spec_u32_to_le_bytes(docs.invoice.currency));
    assert(o.subrange(28, 60) =~= docs.invoice.buyer_id@);
    assert(o.subrange(60, 92) =~= docs.invoice.seller_id@);
    assert(o.subrange(92, 100) =~= spec_u64_to_le_bytes(docs.bill_of_lading.ship_date));
    assert(o.subrange(100, 132) =~= docs.bill_of_lading.origin_id@);
    assert(o.subrange(132, 140) =~= spec_u64_to_le_bytes(docs.bill_of_lading.bol_number));
    assert(o.subrange(140, 172) =~= docs.bill_of_lading.carrier_id@);
    assert(o.subrange(172, 180) =~= spec_u64_to_le_bytes(docs.buyer_balance));
    assert(o.subrange(180, 212) =~= docs.disclosure_blinding@);
}

/// Each per-field commitment covers its documented field: c_i is the
/// commitment, under the master blinding, of the field named by index i
/// (F_AMOUNT the amount, F_SHIP_DATE the ship date, and so on), integers
/// encoded little-endian.
pub proof fn lemma_committed_fields(docs: DocumentSet)
    ensures
        ({
            let m = docs.disclosure_blinding@;
            let inv = docs.invoice;
            let bol = docs.bill_of_lading;
            let c = field_commitments_spec(disclosure_field_values(docs), m);
            &&& c.len() == DISCLOSURE_FIELDS
            &&& c[F_AMOUNT as int] == commit_field_spec(F_AMOUNT, m, spec_u64_to_le_bytes(inv.amount))
            &&& c[F_QUANTITY as int] == commit_field_spec(
                F_QUANTITY,
                m,
                spec_u64_to_le_bytes(inv.quantity),
            )
            &&& c[F_UNIT_PRICE as int] == commit_field_spec(
                F_UNIT_PRICE,
                m,
                spec_u64_to_le_bytes(inv.unit_price),
            )
            &&& c[F_CURRENCY as int] == commit_field_spec(
                F_CURRENCY,
                m,
                spec_u32_to_le_bytes(inv.currency),
            )
            &&& c[F_BUYER_ID as int] == commit_field_spec(F_BUYER_ID, m, inv.buyer_id@)
            &&& c[F_SELLER_ID as int] == commit_field_spec(F_SELLER_ID, m, inv.seller_id@)
            &&& c[F_SHIP_DATE as int] == commit_field_spec(
                F_SHIP_DATE,
                m,
                spec_u64_to_le_bytes(bol.ship_date),
            )
            &&& c[F_ORIGIN_ID as int] == commit_field_spec(F_ORIGIN_ID, m, bol.origin_id@)
            &&& c[F_BOL_NUMBER as int] == commit_field_spec(
                F_BOL_NUMBER,
                m,
                spec_u64_to_le_bytes(bol.bol_number),
            )
            &&& c[F_CARRIER_ID as int] == commit_field_spec(F_CARRIER_ID, m, bol.carrier_id@)
            &&& c[F_BUYER_BALANCE as int] == commit_field_spec(
                F_BUYER_BALANCE,
                m,
                spec_u64_to_le_bytes(docs.buyer_balance),
            )
        }),
{
}

/// Each per-field commitment is the hash of the field's index, its value
/// and its own blinding, which is the hash of "bz-field", the index and
/// the master blinding.
pub proof fn lemma_commit_field_formula(idx: u8, master: Seq<u8>, value: Seq<u8>)
    ensures
        commit_field_spec(idx, master, value) == sha256_spec(
            seq![idx] + value + sha256_spec(seq![98u8, 122, 45, 102, 105, 101, 108, 100] + seq![idx] + master),
        ),
{
    assert(field_tag() =~= seq![98u8, 122, 45, 102, 105, 101, 108, 100]);
}


/// The layout the issuer signs: amount [0..8], quantity [8..16], unit price
/// [16..24], currency [24..28], invoice buyer [28..60] and seller [60..92],
/// ship date [92..100], lading buyer [100..132] and seller [132..164], origin
/// [164..196], bill-of-lading number [196..204], carrier [204..236],
/// integers little-endian.
pub proof fn lemma_doc_digest_layout(inv: Invoice, bol: BillOfLading)
    ensures
        ({
            let p = doc_digest_preimage(inv, bol);
            &&& p.len() == 236
            &&& spec_u64_from_le_bytes(p.subrange(0, 8)) == inv.amount
            &&& spec_u64_from_le_bytes(p.subrange(8, 16)) == inv.quantity
            &&& spec_u64_from_le_bytes(p.subrange(16, 24)) == inv.unit_price
            &&& spec_u32_from_le_bytes(p.subrange(24, 28)) == inv.currency
            &&& p.subrange(28, 60) == inv.buyer_id@
            &&& p.subrange(60, 92) == inv.seller_id@
            &&& spec_u64_from_le_bytes(p.subrange(92, 100)) == bol.ship_date
            &&& p.subrange(100, 132) == bol.buyer_id@
            &&& p.subrange(132, 164) == bol.seller_id@
            &&& p.subrange(164, 196) == bol.origin_id@
            &&& spec_u64_from_le_bytes(p.subrange(196, 204)) == bol.bol_number
            &&& p.subrange(204, 236) == bol.carrier_id@
        }),
{
    lemma_le_widths();
    vstd::bytes::lemma_auto_spec_u64_to_from_le_bytes();
    vstd::bytes::lemma_auto_spec_u32_to_from_le_bytes();
    let p = doc_digest_preimage(inv, bol);
    assert(p.subrange(0, 8) =~= spec_u64_to_le_bytes(inv.amount));
    assert(p.subrange(8, 16) =~= spec_u64_to_le_bytes(inv.quantity));
    assert(p.subrange(16, 24) =~= spec_u64_to_le_bytes(inv.unit_price));
    assert(p.subrange(24, 28) =~= spec_u32_to_le_bytes(inv.currency));
    assert(p.subrange(28, 60) =~= inv.buyer_id@);
    assert(p.subrange(60, 92) =~= inv.seller_id@);
    assert(p.subrange(92, 100) =~= spec_u64_to_le_bytes(bol.ship_date));
    assert(p.subrange(100, 132) =~= bol.buyer_id@);
    assert(p.subrange(132, 164) =~= bol.seller_id@);
    assert(p.subrange(164, 196) =~= bol.origin_id@);
    assert(p.subrange(196, 204) =~= spec_u64_to_le_bytes(bol.bol_number));
    assert(p.subrange(204, 236) =~= bol.carrier_id@);
}

/// The layout of the terms digest: LC id [0..8], credit limit [8..16],
/// deadline [16..24], currency [24..28], buyer [28..60], seller [60..92],
/// approved root [92..124], origins root [124..156], issuer key [156..188],
/// auditor key [188..220], integers little-endian.
pub proof fn lemma_terms_digest_layout(t: LcTerms)
    ensures
        ({
            let p = terms_digest_preimage(t);
            &&& p.len() == 220
            &&& spec_u64_from_le_bytes(p.subrange(0, 8)) == t.lc_id
            &&& spec_u64_from_le_bytes(p.subrange(8, 16)) == t.credit_limit
            &&& spec_u64_from_le_bytes(p.subrange(16, 24)) == t.deadline
            &&& spec_u32_from_le_bytes(p.subrange(24, 28)) == t.currency
            &&& p.subrange(28, 60) == t.buyer_id@
            &&& p.subrange(60, 92) == t.seller_id@
            &&& p.subrange(92, 124) == t.approved_root@
            &&& p.subrange(124, 156) == t.origins_root@
            &&& p.subrange(156, 188) == t.issuer_pubkey@
            &&& p.subrange(188, 220) == t.auditor_pubkey@
        }),
{
    lemma_le_widths();
    vstd::bytes::lemma_auto_spec_u64_to_from_le_bytes();
    vstd::bytes::lemma_auto_spec_u32_to_from_le_bytes();
    let p = terms_digest_preimage(t);
    assert(p.subrange(0, 8) =~= spec_u64_to_le_bytes(t.lc_id));
    assert(p.subrange(8, 16) =~= spec_u64_to_le_bytes(t.credit_limit));
    assert(p.subrange(16, 24) =~= spec_u64_to_le_bytes(t.deadline));
    assert(p.subrange(24, 28) =~= spec_u32_to_le_bytes(t.currency));
    assert(p.subrange(28, 60) =~= t.buyer_id@);
    assert(p.subrange(60, 92) =~= t.seller_id@);
    assert(p.subrange(92, 124) =~= t.approved_root@);
    assert(p.subrange(124, 156) =~= t.origins_root@);
    assert(p.subrange(156, 188) =~= t.issuer_pubkey@);
    assert(p.subrange(188, 220) =~= t.auditor_pubkey@);
}

} // verus!
