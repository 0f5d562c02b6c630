//! The shared data model: the public Letter-of-Credit terms and the private
//! document set that a seller presents against them.

use vstd::prelude::*;

verus! {

/// Depth of the Merkle trees (2^DEPTH leaves). Depth 4 = up to 16 leaves,
/// used for both the approved-exporter and the allowed-origin allowlists.
pub const TREE_DEPTH: usize = 4;

/// Length of the journal the compliance check commits:
///   [0..8]   lc_id                 (little-endian u64)
///   [8..16]  release_amount        (little-endian u64)
///   [16..48] terms_digest          (sha256 of the canonical LcTerms)
///   [48..80] disclosure_commitment (per-field selective-disclosure root)
pub const JOURNAL_LEN: usize = 80;

/// Number of disclosable fields.
pub const DISCLOSURE_FIELDS: usize = 11;

/// Field indices (also the domain-separation tag for each per-field commitment).
pub const F_AMOUNT: u8 = 0;
pub const F_QUANTITY: u8 = 1;
pub const F_UNIT_PRICE: u8 = 2;
pub const F_CURRENCY: u8 = 3;
pub const F_BUYER_ID: u8 = 4;
pub const F_SELLER_ID: u8 = 5;
pub const F_SHIP_DATE: u8 = 6;
pub const F_ORIGIN_ID: u8 = 7;
pub const F_BOL_NUMBER: u8 = 8;
pub const F_CARRIER_ID: u8 = 9;
pub const F_BUYER_BALANCE: u8 = 10;

/// Length of the disclosure opening blob: every field value in index order,
/// then the 32-byte master blinding.
///   amount(8) quantity(8) unit_price(8) currency(4) buyer(32) seller(32)
///   ship_date(8) origin(32) bol_number(8) carrier(32) buyer_balance(8)
///   master_blinding(32)
pub const DISCLOSURE_OPENING_LEN: usize = 8 + 8 + 8 + 4 + 32 + 32 + 8 + 32 + 8 + 32 + 8 + 32;

/// Public Letter-of-Credit terms, known to the escrow and bound into the
/// journal through `terms_digest`.
#[derive(Clone, Copy, Debug)]
pub struct LcTerms {
    pub lc_id: u64,
    /// Maximum payable amount (token base units).
    pub credit_limit: u64,
    /// Latest valid shipment date (unix seconds).
    pub deadline: u64,
    /// ISO 4217 numeric currency code the LC settles in (e.g. 840 = USD).
    pub currency: u32,
    /// sha256(buyer legal name).
    pub buyer_id: [u8; 32],
    /// sha256(seller legal name).
    pub seller_id: [u8; 32],
    /// Root of the bank's approved-exporter allowlist.
    pub approved_root: [u8; 32],
    /// Root of the allowed-origin allowlist.
    pub origins_root: [u8; 32],
    /// The ed25519 public key of the trusted document issuer.
    pub issuer_pubkey: [u8; 32],
    /// The auditor's X25519 public key.
    pub auditor_pubkey: [u8; 32],
}

/// Private commercial invoice.
#[derive(Clone, Copy, Debug)]
pub struct Invoice {
    /// Total invoiced amount; must equal quantity * unit_price.
    pub amount: u64,
    /// Number of units shipped.
    pub quantity: u64,
    /// Price per unit.
    pub unit_price: u64,
    /// ISO 4217 numeric currency code; must equal the LC currency.
    pub currency: u32,
    pub buyer_id: [u8; 32],
    pub seller_id: [u8; 32],
}

/// Private bill of lading (shipping document).
#[derive(Clone, Copy, Debug)]
pub struct BillOfLading {
    pub ship_date: u64,
    pub buyer_id: [u8; 32],
    pub seller_id: [u8; 32],
    /// sha256(country of origin); must be in the LC's allowed-origin set.
    pub origin_id: [u8; 32],
    /// Bill-of-lading document number (disclosed to the auditor, not gated).
    pub bol_number: u64,
    /// sha256(carrier / vessel name) (disclosed to the auditor, not gated).
    pub carrier_id: [u8; 32],
}

/// A Merkle inclusion proof: the sibling hashes along the path from a leaf
/// to the root, plus the position bits (bit i: 0 => node is the left child
/// at level i, 1 => right child).
#[derive(Clone, Copy, Debug)]
pub struct MerkleProof {
    pub siblings: [[u8; 32]; TREE_DEPTH],
    pub index_bits: u32,
}

/// The full private document set presented for an LC drawdown.
#[derive(Clone, Copy, Debug)]
pub struct DocumentSet {
    pub invoice: Invoice,
    pub bill_of_lading: BillOfLading,
    /// The buyer's available escrow balance (range-proved against the credit line).
    pub buyer_balance: u64,
    /// Proof that `invoice.seller_id` is a leaf of the LC's `approved_root` tree.
    pub seller_merkle: MerkleProof,
    /// Proof that `bill_of_lading.origin_id` is in the LC's origins tree.
    pub origin_merkle: MerkleProof,
    /// The issuer's ed25519 signature over `doc_digest`, as two 32-byte halves.
    pub issuer_sig: [[u8; 32]; 2],
    /// The master blinding from which each disclosed field's blinding is derived.
    pub disclosure_blinding: [u8; 32],
}

} // verus!
