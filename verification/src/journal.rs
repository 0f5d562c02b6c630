//! The fixed-layout public journal, packed by the compliance check and
//! parsed back by the escrow with plain slicing.

use vstd::prelude::*;
use vstd::bytes::{spec_u64_from_le_bytes, spec_u64_to_le_bytes, u64_from_le_bytes};
use vstd::slice::slice_subrange;

use crate::bytes::{push_all, push_u64_le};
use crate::commitment::lemma_le_widths;
use crate::model::JOURNAL_LEN;

verus! {

/// The journal bytes: lc_id and release amount (little-endian), then the
/// terms digest and the disclosure commitment.
pub open spec fn journal_spec(
    lc_id: u64,
    release_amount: u64,
    terms_digest: Seq<u8>,
    disclosure_commitment: Seq<u8>,
) -> Seq<u8> {
    spec_u64_to_le_bytes(lc_id) + spec_u64_to_le_bytes(release_amount) + terms_digest
        + disclosure_commitment
}

/// Pack the public journal into its fixed 80-byte on-chain layout.
pub fn pack_journal(
    lc_id: u64,
    release_amount: u64,
    terms_digest: &[u8; 32],
    disclosure_commitment: &[u8; 32],
) -> (out: [u8; JOURNAL_LEN])
    ensures
        out@ == journal_spec(lc_id, release_amount, terms_digest@, disclosure_commitment@),
{
    let mut m: Vec<u8> = Vec::new();
    push_u64_le(&mut m, lc_id);
    push_u64_le(&mut m, release_amount);
    push_all(&mut m, terms_digest);
    push_all(&mut m, disclosure_commitment);
    proof {
        lemma_le_widths();
    }
    let mut out = [0u8; JOURNAL_LEN];
    let mut i: usize = 0;
    while i < JOURNAL_LEN
        invariant
            i <= JOURNAL_LEN,
            m@ == journal_spec(lc_id, release_amount, terms_digest@, disclosure_commitment@),
            m@.len() == JOURNAL_LEN,
            out@.len() == JOURNAL_LEN,
            forall|j: int| 0 <= j < i ==> out@[j] == m@[j],
        decreases JOURNAL_LEN - i,
    {
        out[i] = m[i];
        i += 1;
    }
    assert(out@ =~= m@);
    out
}

/// The part of a journal the escrow settles on.
#[derive(Clone, Copy, Debug)]
pub struct SettlementClaim {
    pub lc_id: u64,
    pub release_amount: u64,
    pub terms_digest: [u8; 32],
}

/// Read what the escrow settles on from a journal (fixed little-endian
/// layout): [0..8] lc_id, [8..16] release_amount, [16..48] terms_digest;
/// the disclosure commitment at [48..80] is recorded, not settled on.
pub fn parse_settlement_claim(j: &[u8; JOURNAL_LEN]) -> (c: SettlementClaim)
    ensures
        c.lc_id == spec_u64_from_le_bytes(j@.subrange(0, 8)),
        c.release_amount == spec_u64_from_le_bytes(j@.subrange(8, 16)),
        c.terms_digest@ == j@.subrange(16, 48),
{
    let s = j.as_slice();
    let lc_id = u64_from_le_bytes(slice_subrange(s, 0, 8));
    let release_amount = u64_from_le_bytes(slice_subrange(s, 8, 16));
    let mut td = [0u8; 32];
    let mut i: usize = 0;
    while i < 32
        invariant
            i <= 32,
            j@.len() == JOURNAL_LEN,
            td@.len() == 32,
            forall|k: int| 0 <= k < i ==> td@[k] == j@[16 + k],
        decreases 32 - i,
    {
        td[i] = j[16 + i];
        i += 1;
    }
    assert(td@ =~= j@.subrange(16, 48));
    SettlementClaim { lc_id, release_amount, terms_digest: td }
}

/// A packed journal gives back the LC id, the release amount, the terms
/// digest and the disclosure commitment that were packed.
pub proof fn lemma_journal_roundtrip(
    lc_id: u64,
    release_amount: u64,
    terms_digest: Seq<u8>,
    disclosure_commitment: Seq<u8>,
)
    requires
        terms_digest.len() == 32,
        disclosure_commitment.len() == 32,
    ensures
        ({
            let j = journal_spec(lc_id, release_amount, terms_digest, disclosure_commitment);
            &&& j.len() == JOURNAL_LEN
            &&& spec_u64_from_le_bytes(j.subrange(0, 8)) == lc_id
            &&& spec_u64_from_le_bytes(j.subrange(8, 16)) == release_amount
            &&& j.subrange(16, 48) == terms_digest
            &&& j.subrange(48, 80) == disclosure_commitment
        }),
{
    lemma_le_widths();
    vstd::bytes::lemma_auto_spec_u64_to_from_le_bytes();
    let j = journal_spec(lc_id, release_amount, terms_digest, disclosure_commitment);
    assert(j.subrange(0, 8) =~= spec_u64_to_le_bytes(lc_id));
    assert(j.subrange(8, 16) =~= spec_u64_to_le_bytes(release_amount));
    assert(j.subrange(16, 48) =~= terms_digest);
    assert(j.subrange(48, 80) =~= disclosure_commitment);
}

} // verus!
