//! The Letter-of-Credit rules a private document presentation must satisfy.
//!
//! The check reads the public LC terms and the private document set,
//! enforces every condition of the LC, and only when every rule passes
//! produces the compact public journal. A presentation that breaks a rule
//! yields the first rule it breaks, in the fixed order below, and no journal.

use vstd::prelude::*;
use ed25519_dalek::{Signature, VerifyingKey};

use crate::commitment::{
    disclosure_commitment, disclosure_field_values, doc_digest, doc_digest_preimage,
    field_commitments_spec, terms_digest, terms_digest_preimage,
};
use crate::commitment::digests_view;
use crate::digest::sha256_spec;
use crate::journal::{journal_spec, pack_journal};
use crate::merkle::{merkle_root, path_root};
use crate::model::{DocumentSet, LcTerms, JOURNAL_LEN, TREE_DEPTH};

verus! {

/// Whether `VerifyingKey::from_bytes` of `ed25519_dalek` accepts these
/// 32 bytes as a public key.
pub uninterp spec fn ed25519_key_decodes(public_key: Seq<u8>) -> bool;

/// Whether `VerifyingKey::verify_strict` of `ed25519_dalek`, on the key
/// decoded from `public_key`, accepts `signature` over `message`.
pub uninterp spec fn ed25519_verify_strict(
    public_key: Seq<u8>,
    message: Seq<u8>,
    signature: Seq<u8>,
) -> bool;

/// The outcome of checking an issuer signature.
#[derive(Clone, Copy, Debug, PartialEq, Eq)]
pub enum SignatureCheck {
    Valid,
    MalformedKey,
    Invalid,
}

/// Decodes the issuer key with `ed25519_dalek::VerifyingKey::from_bytes` and,
/// when it decodes, checks the signature with `VerifyingKey::verify_strict`
/// (the signature bytes go through the infallible `Signature::from_bytes`).
///
/// Trusted: `MalformedKey` exactly when the key does not decode, `Valid`
/// exactly when it decodes and strict verification accepts; both facts are
/// stated through the names above, and nothing about Ed25519 itself is
/// claimed.
#[verifier::external_body]
fn verify_issuer_signature(public_key: &[u8; 32], message: &[u8], signature: &[u8; 64]) -> (r:
    SignatureCheck)
    ensures
        (r is MalformedKey) == !ed25519_key_decodes(public_key@),
        (r is Valid) == (ed25519_key_decodes(public_key@) && ed25519_verify_strict(
            public_key@,
            message@,
            signature@,
        )),
{
    match VerifyingKey::from_bytes(public_key) {
        Err(_) => SignatureCheck::MalformedKey,
        Ok(key) => match key.verify_strict(message, &Signature::from_bytes(signature)) {
            Ok(()) => SignatureCheck::Valid,
            Err(_) => SignatureCheck::Invalid,
        },
    }
}

/// A rule of the Letter of Credit that a presentation broke.
#[derive(Clone, Copy, Debug, PartialEq, Eq)]
pub enum Violation {
    /// The invoiced amount exceeds the LC credit limit.
    AmountExceedsCreditLimit,
    /// The shipment date is after the LC deadline.
    ShipmentAfterDeadline,
    /// The invoice names another buyer than the LC.
    InvoiceBuyerMismatch,
    /// The invoice names another seller than the LC.
    InvoiceSellerMismatch,
    /// The bill of lading names another buyer than the LC.
    LadingBuyerMismatch,
    /// The bill of lading names another seller than the LC.
    LadingSellerMismatch,
    /// The buyer differs between invoice and bill of lading.
    BuyerDiffersBetweenDocuments,
    /// The seller differs between invoice and bill of lading.
    SellerDiffersBetweenDocuments,
    /// The buyer's balance does not cover the LC credit line.
    BalanceBelowCreditLimit,
    /// quantity * unit_price overflows.
    LineTotalOverflows,
    /// The invoiced amount is not quantity * unit_price.
    AmountNotLineTotal,
    /// The invoice currency is not the LC currency.
    CurrencyMismatch,
    /// The seller is not in the approved-exporter allowlist.
    SellerNotApproved,
    /// The country of origin is not in the allowed-origin allowlist.
    OriginNotAllowed,
    /// The issuer public key is malformed.
    MalformedIssuerKey,
    /// The issuer signature on the documents is invalid.
    InvalidIssuerSignature,
}

/// The message a broken rule is reported with.
pub open spec fn violation_message(v: Violation) -> &'static str {
    match v {
        Violation::AmountExceedsCreditLimit => "invoice amount exceeds LC credit limit",
        Violation::ShipmentAfterDeadline => "shipment date is after the LC deadline",
        Violation::InvoiceBuyerMismatch => "invoice buyer != LC buyer",
        Violation::InvoiceSellerMismatch => "invoice seller != LC seller",
        Violation::LadingBuyerMismatch => "bill-of-lading buyer != LC buyer",
        Violation::LadingSellerMismatch => "bill-of-lading seller != LC seller",
        Violation::BuyerDiffersBetweenDocuments => "buyer differs between invoice and bill of lading",
        Violation::SellerDiffersBetweenDocuments => "seller differs between invoice and bill of lading",
        Violation::BalanceBelowCreditLimit => "buyer balance does not cover the LC credit line",
        Violation::LineTotalOverflows => "quantity * unit_price overflows",
        Violation::AmountNotLineTotal => "invoice amount does not equal quantity * unit_price",
        Violation::CurrencyMismatch => "invoice currency does not match the LC currency",
        Violation::SellerNotApproved => "seller is not in the approved-exporter allowlist",
        Violation::OriginNotAllowed => "country of origin is not in the LC's allowed-origin list",
        Violation::MalformedIssuerKey => "malformed issuer public key",
        Violation::InvalidIssuerSignature => "issuer signature on documents is invalid",
    }
}

impl Violation {
    /// The message this broken rule is reported with.
    pub fn message(&self) -> (m: &'static str)
        ensures
            m@ == violation_message(*self)@,
    {
        match self {
            Violation::AmountExceedsCreditLimit => "invoice amount exceeds LC credit limit",
            Violation::ShipmentAfterDeadline => "shipment date is after the LC deadline",
            Violation::InvoiceBuyerMismatch => "invoice buyer != LC buyer",
            Violation::InvoiceSellerMismatch => "invoice seller != LC seller",
            Violation::LadingBuyerMismatch => "bill-of-lading buyer != LC buyer",
            Violation::LadingSellerMismatch => "bill-of-lading seller != LC seller",
            Violation::BuyerDiffersBetweenDocuments => "buyer differs between invoice and bill of lading",
            Violation::SellerDiffersBetweenDocuments => "seller differs between invoice and bill of lading",
            Violation::BalanceBelowCreditLimit => "buyer balance does not cover the LC credit line",
            Violation::LineTotalOverflows => "quantity * unit_price overflows",
            Violation::AmountNotLineTotal => "invoice amount does not equal quantity * unit_price",
            Violation::CurrencyMismatch => "invoice currency does not match the LC currency",
            Violation::SellerNotApproved => "seller is not in the approved-exporter allowlist",
            Violation::OriginNotAllowed => "country of origin is not in the LC's allowed-origin list",
            Violation::MalformedIssuerKey => "malformed issuer public key",
            Violation::InvalidIssuerSignature => "issuer signature on documents is invalid",
        }
    }
}

/// The 64 signature bytes, stored as two 32-byte halves.
pub open spec fn issuer_signature_bytes(docs: DocumentSet) -> Seq<u8> {
    docs.issuer_sig[0]@ + docs.issuer_sig[1]@
}

/// The root a leaf and an inclusion proof imply.
pub open spec fn implied_root(leaf: Seq<u8>, proof: crate::model::MerkleProof) -> Seq<u8> {
    path_root(leaf, digests_view(proof.siblings@), proof.index_bits as nat, TREE_DEPTH as nat)
}

/// The first rule, in the order of the check, that the presentation breaks.
pub open spec fn first_violation(terms: LcTerms, docs: DocumentSet) -> Option<Violation> {
    let inv = docs.invoice;
    let bol = docs.bill_of_lading;
    let msg = sha256_spec(doc_digest_preimage(inv, bol));
    if inv.amount > terms.credit_limit {
        Some(Violation::AmountExceedsCreditLimit)
    } else if bol.ship_date > terms.deadline {
        Some(Violation::ShipmentAfterDeadline)
    } else if inv.buyer_id@ != terms.buyer_id@ {
        Some(Violation::InvoiceBuyerMismatch)
    } else if inv.seller_id@ != terms.seller_id@ {
        Some(Violation::InvoiceSellerMismatch)
    } else if bol.buyer_id@ != terms.buyer_id@ {
        Some(Violation::LadingBuyerMismatch)
    } else if bol.seller_id@ != terms.seller_id@ {
        Some(Violation::LadingSellerMismatch)
    } else if inv.buyer_id@ != bol.buyer_id@ {
        Some(Violation::BuyerDiffersBetweenDocuments)
    } else if inv.seller_id@ != bol.seller_id@ {
        Some(Violation::SellerDiffersBetweenDocuments)
    } else if docs.buyer_balance < terms.credit_limit {
        Some(Violation::BalanceBelowCreditLimit)
    } else if inv.quantity * inv.unit_price > u64::MAX {
        Some(Violation::LineTotalOverflows)
    } else if inv.amount != inv.quantity * inv.unit_price {
        Some(Violation::AmountNotLineTotal)
    } else if inv.currency != terms.currency {
        Some(Violation::CurrencyMismatch)
    } else if implied_root(inv.seller_id@, docs.seller_merkle) != terms.approved_root@ {
        Some(Violation::SellerNotApproved)
    } else if implied_root(bol.origin_id@, docs.origin_merkle) != terms.origins_root@ {
        Some(Violation::OriginNotAllowed)
    } else if !ed25519_key_decodes(terms.issuer_pubkey@) {
        Some(Violation::MalformedIssuerKey)
    } else if !ed25519_verify_strict(terms.issuer_pubkey@, msg, issuer_signature_bytes(docs)) {
        Some(Violation::InvalidIssuerSignature)
    } else {
        None
    }
}

/// The journal a compliant presentation commits: the LC id, the invoiced
/// amount as the amount to release, the terms digest and the disclosure
/// commitment.
pub open spec fn compliant_journal(terms: LcTerms, docs: DocumentSet) -> Seq<u8> {
    journal_spec(
        terms.lc_id,
        docs.invoice.amount,
        sha256_spec(terms_digest_preimage(terms)),
        sha256_spec(
            field_commitments_spec(
                disclosure_field_values(docs),
                docs.disclosure_blinding@,
            ).flatten(),
        ),
    )
}

/// Whether two 32-byte values are equal.
pub fn bytes32_eq(a: &[u8; 32], b: &[u8; 32]) -> (eq: bool)
    ensures
        eq == (a@ == b@),
{
    let mut i: usize = 0;
    while i < 32
        invariant
            i <= 32,
            a@.len() == 32,
            b@.len() == 32,
            forall|k: int| 0 <= k < i ==> a@[k] == b@[k],
        decreases 32 - i,
    {
        if a[i] != b[i] {
            assert(a@[i as int] != b@[i as int]);
            return false;
        }
        i += 1;
    }
    assert(a@ =~= b@);
    true
}

/// Enforce every condition of the Letter of Credit on a presentation and,
/// when all pass, bind the result to these LC terms: commit the disclosure
/// commitment for the auditor and reveal only the LC id and the amount to
/// release.
pub fn check_presentation(terms: &LcTerms, docs: &DocumentSet) -> (r: Result<
    [u8; JOURNAL_LEN],
    Violation,
>)
    ensures
        match first_violation(*terms, *docs) {
            Some(v) => r == Err::<[u8; JOURNAL_LEN], Violation>(v),
            None => r matches Ok(j) && j@ == compliant_journal(*terms, *docs),
        },
{
    let inv = &docs.invoice;
    let bol = &docs.bill_of_lading;
    // Rule 1: the invoiced amount must not exceed the LC credit limit.
    if inv.amount > terms.credit_limit {
        return Err(Violation::AmountExceedsCreditLimit);
    }
    // Rule 2: shipment must be on or before the LC deadline.
    if bol.ship_date > terms.deadline {
        return Err(Violation::ShipmentAfterDeadline);
    }
    // Rules 3 & 4: both documents must name the LC's buyer and seller.
    if !bytes32_eq(&inv.buyer_id, &terms.buyer_id) {
        return Err(Violation::InvoiceBuyerMismatch);
    }
    if !bytes32_eq(&inv.seller_id, &terms.seller_id) {
        return Err(Violation::InvoiceSellerMismatch);
    }
    if !bytes32_eq(&bol.buyer_id, &terms.buyer_id) {
        return Err(Violation::LadingBuyerMismatch);
    }
    if !bytes32_eq(&bol.seller_id, &terms.seller_id) {
        return Err(Violation::LadingSellerMismatch);
    }
    // Rule 5: the two documents must be consistent with each other.
    if !bytes32_eq(&inv.buyer_id, &bol.buyer_id) {
        return Err(Violation::BuyerDiffersBetweenDocuments);
    }
    if !bytes32_eq(&inv.seller_id, &bol.seller_id) {
        return Err(Violation::SellerDiffersBetweenDocuments);
    }
    // Rule 6 (range proof): the buyer's balance must cover the credit line.
    if docs.buyer_balance < terms.credit_limit {
        return Err(Violation::BalanceBelowCreditLimit);
    }
    // Rule 6b (line-item integrity): amount == quantity * unit_price, with a
    // checked multiply so an overflow cannot pass the rule.
    let computed = match inv.quantity.checked_mul(inv.unit_price) {
        Some(c) => c,
        None => {
            return Err(Violation::LineTotalOverflows);
        },
    };
    if inv.amount != computed {
        return Err(Violation::AmountNotLineTotal);
    }
    // Rule 6c (currency): the invoice is denominated in the LC's currency.
    if inv.currency != terms.currency {
        return Err(Violation::CurrencyMismatch);
    }
    // Rule 7 (Merkle membership): the seller is an approved exporter.
    let seller_root = merkle_root(&inv.seller_id, &docs.seller_merkle);
    if !bytes32_eq(&seller_root, &terms.approved_root) {
        return Err(Violation::SellerNotApproved);
    }
    // Rule 7b: the country of origin is on the allowed-origin allowlist.
    let origin_root = merkle_root(&bol.origin_id, &docs.origin_merkle);
    if !bytes32_eq(&origin_root, &terms.origins_root) {
        return Err(Violation::OriginNotAllowed);
    }
    // Rule 8 (issuer signature): the documents carry the trusted issuer's
    // signature over their canonical digest.
    let mut sig_bytes = [0u8; 64];
    let mut i: usize = 0;
    while i < 32
        invariant
            i <= 32,
            sig_bytes@.len() == 64,
            docs.issuer_sig@.len() == 2,
            docs.issuer_sig[0]@.len() == 32,
            docs.issuer_sig[1]@.len() == 32,
            forall|k: int| 0 <= k < i ==> sig_bytes@[k] == docs.issuer_sig[0]@[k],
            forall|k: int| 0 <= k < i ==> sig_bytes@[32 + k] == docs.issuer_sig[1]@[k],
        decreases 32 - i,
    {
        sig_bytes[i] = docs.issuer_sig[0][i];
        sig_bytes[32 + i] = docs.issuer_sig[1][i];
        i += 1;
    }
    assert(sig_bytes@ =~= issuer_signature_bytes(*docs));
    let msg = doc_digest(inv, bol);
    match verify_issuer_signature(&terms.issuer_pubkey, &msg, &sig_bytes) {
        SignatureCheck::MalformedKey => {
            return Err(Violation::MalformedIssuerKey);
        },
        SignatureCheck::Invalid => {
            return Err(Violation::InvalidIssuerSignature);
        },
        SignatureCheck::Valid => {},
    }
    // All checks passed.
    let td = terms_digest(terms);
    let dc = disclosure_commitment(docs);
    Ok(pack_journal(terms.lc_id, inv.amount, &td, &dc))
}

/// A presentation that passes the check meets every condition of the
/// Letter of Credit: the amount is within the credit line and equals the
/// line total, the shipment is in time, both documents name the LC's buyer
/// and seller, the buyer's balance covers the credit line, the currency is
/// the LC's, the seller and the origin are on their allowlists, and the
/// trusted issuer signed the documents.
pub proof fn lemma_accepted_presentation_meets_terms(terms: LcTerms, docs: DocumentSet)
    requires
        first_violation(terms, docs) is None,
    ensures
        docs.invoice.amount <= terms.credit_limit,
        docs.bill_of_lading.ship_date <= terms.deadline,
        docs.invoice.buyer_id@ == terms.buyer_id@,
        docs.invoice.seller_id@ == terms.seller_id@,
        docs.bill_of_lading.buyer_id@ == terms.buyer_id@,
        docs.bill_of_lading.seller_id@ == terms.seller_id@,
        docs.buyer_balance >= terms.credit_limit,
        docs.invoice.amount == docs.invoice.quantity * docs.invoice.unit_price,
        docs.invoice.currency == terms.currency,
        implied_root(docs.invoice.seller_id@, docs.seller_merkle) == terms.approved_root@,
        implied_root(docs.bill_of_lading.origin_id@, docs.origin_merkle) == terms.origins_root@,
        ed25519_key_decodes(terms.issuer_pubkey@),
        ed25519_verify_strict(
            terms.issuer_pubkey@,
            sha256_spec(doc_digest_preimage(docs.invoice, docs.bill_of_lading)),
            issuer_signature_bytes(docs),
        ),
{
}

/// The amount a compliant journal releases is the invoiced amount, which is
/// at most the credit line and at most the buyer's balance, and the journal
/// names the LC of the terms.
pub proof fn lemma_released_amount_is_covered(terms: LcTerms, docs: DocumentSet)
    requires
        first_violation(terms, docs) is None,
    ensures
        ({
            let j = compliant_journal(terms, docs);
            &&& vstd::bytes::spec_u64_from_le_bytes(j.subrange(0, 8)) == terms.lc_id
            &&& vstd::bytes::spec_u64_from_le_bytes(j.subrange(8, 16)) == docs.invoice.amount
            &&& docs.invoice.amount <= terms.credit_limit
            &&& docs.invoice.amount <= docs.buyer_balance
        }),
{
    crate::commitment::lemma_le_widths();
    vstd::bytes::lemma_auto_spec_u64_to_from_le_bytes();
    let j = compliant_journal(terms, docs);
    assert(j.subrange(0, 8) =~= vstd::bytes::spec_u64_to_le_bytes(terms.lc_id));
    assert(j.subrange(8, 16) =~= vstd::bytes::spec_u64_to_le_bytes(docs.invoice.amount));
}


/// Completeness of the check: a presentation that meets every rule of the
/// Letter of Credit is accepted. The amount is within the credit line, the
/// goods shipped on or before the deadline (the deadline day itself counts),
/// both documents name the LC's buyer and seller, the buyer's balance covers
/// the credit line, the amount is the line total without overflow, the
/// currency is the LC's, the seller and the origin reach their allowlist
/// roots, and the trusted issuer signed the documents.
pub proof fn lemma_compliant_presentation_accepted(terms: LcTerms, docs: DocumentSet)
    requires
        docs.invoice.amount <= terms.credit_limit,
        docs.bill_of_lading.ship_date <= terms.deadline,
        docs.invoice.buyer_id@ == terms.buyer_id@,
        docs.invoice.seller_id@ == terms.seller_id@,
        docs.bill_of_lading.buyer_id@ == terms.buyer_id@,
        docs.bill_of_lading.seller_id@ == terms.seller_id@,
        docs.buyer_balance >= terms.credit_limit,
        docs.invoice.quantity * docs.invoice.unit_price <= u64::MAX,
        docs.invoice.amount == docs.invoice.quantity * docs.invoice.unit_price,
        docs.invoice.currency == terms.currency,
        implied_root(docs.invoice.seller_id@, docs.seller_merkle) == terms.approved_root@,
        implied_root(docs.bill_of_lading.origin_id@, docs.origin_merkle) == terms.origins_root@,
        ed25519_key_decodes(terms.issuer_pubkey@),
        ed25519_verify_strict(
            terms.issuer_pubkey@,
            sha256_spec(doc_digest_preimage(docs.invoice, docs.bill_of_lading)),
            docs.issuer_sig[0]@ + docs.issuer_sig[1]@,
        ),
    ensures
        first_violation(terms, docs) is None,
{
}

/// Which rule the check reports, stated rule by rule: each violation is
/// reported exactly when its rule is broken and every rule checked before it
/// holds, in the order amount, deadline, invoice buyer, invoice seller,
/// lading buyer, lading seller, buyer consistency, seller consistency,
/// balance, line-total overflow, line total, currency, seller allowlist,
/// origin allowlist, issuer key, issuer signature.
pub proof fn lemma_reported_violation(terms: LcTerms, docs: DocumentSet)
    ensures
        ({
            let inv = docs.invoice;
            let bol = docs.bill_of_lading;
            let r = first_violation(terms, docs);
            let ok1 = inv.amount <= terms.credit_limit;
            let ok2 = ok1 && bol.ship_date <= terms.deadline;
            let ok3 = ok2 && inv.buyer_id@ == terms.buyer_id@;
            let ok4 = ok3 && inv.seller_id@ == terms.seller_id@;
            let ok5 = ok4 && bol.buyer_id@ == terms.buyer_id@;
            let ok6 = ok5 && bol.seller_id@ == terms.seller_id@;
            let ok7 = ok6 && inv.buyer_id@ == bol.buyer_id@;
            let ok8 = ok7 && inv.seller_id@ == bol.seller_id@;
            let ok9 = ok8 && docs.buyer_balance >= terms.credit_limit;
            let ok10 = ok9 && inv.quantity * inv.unit_price <= u64::MAX;
            let ok11 = ok10 && inv.amount == inv.quantity * inv.unit_price;
            let ok12 = ok11 && inv.currency == terms.currency;
            let ok13 = ok12 && implied_root(inv.seller_id@, docs.seller_merkle)
                == terms.approved_root@;
            let ok14 = ok13 && implied_root(bol.origin_id@, docs.origin_merkle)
                == terms.origins_root@;
            let ok15 = ok14 && ed25519_key_decodes(terms.issuer_pubkey@);
            let ok16 = ok15 && ed25519_verify_strict(
                terms.issuer_pubkey@,
                sha256_spec(doc_digest_preimage(inv, bol)),
                docs.issuer_sig[0]@ + docs.issuer_sig[1]@,
            );
            &&& (r == Some(Violation::AmountExceedsCreditLimit)) == !ok1
            &&& (r == Some(Violation::ShipmentAfterDeadline)) == (ok1 && !ok2)
            &&& (r == Some(Violation::InvoiceBuyerMismatch)) == (ok2 && !ok3)
            &&& (r == Some(Violation::InvoiceSellerMismatch)) == (ok3 && !ok4)
            &&& (r == Some(Violation::LadingBuyerMismatch)) == (ok4 && !ok5)
            &&& (r == Some(Violation::LadingSellerMismatch)) == (ok5 && !ok6)
            &&& (r == Some(Violation::BuyerDiffersBetweenDocuments)) == (ok6 && !ok7)
            &&& (r == Some(Violation::SellerDiffersBetweenDocuments)) == (ok7 && !ok8)
            &&& (r == Some(Violation::BalanceBelowCreditLimit)) == (ok8 && !ok9)
            &&& (r == Some(Violation::LineTotalOverflows)) == (ok9 && !ok10)
            &&& (r == Some(Violation::AmountNotLineTotal)) == (ok10 && !ok11)
            &&& (r == Some(Violation::CurrencyMismatch)) == (ok11 && !ok12)
            &&& (r == Some(Violation::SellerNotApproved)) == (ok12 && !ok13)
            &&& (r == Some(Violation::OriginNotAllowed)) == (ok13 && !ok14)
            &&& (r == Some(Violation::MalformedIssuerKey)) == (ok14 && !ok15)
            &&& (r == Some(Violation::InvalidIssuerSignature)) == (ok15 && !ok16)
            &&& (r is None) == ok16
        }),
{
}

} // verus!
