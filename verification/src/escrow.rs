//! The escrow's decisions. The escrow holds a stablecoin payment for one
//! Letter of Credit and releases it to the seller only for a journal that a
//! valid proof attests, bound to this LC and to its exact terms. The chain
//! calls (the proof verifier, the token transfers, the storage) are made by
//! the contract around this state; every decision is taken here.

use vstd::prelude::*;
use vstd::bytes::spec_u64_from_le_bytes;

use crate::commitment::{lemma_le_widths, terms_digest_preimage};
use crate::compliance::{bytes32_eq, compliant_journal, first_violation};
use crate::digest::sha256_spec;
use crate::journal::{parse_settlement_claim, SettlementClaim};
use crate::model::{DocumentSet, LcTerms, JOURNAL_LEN};

verus! {

/// The two storage entries of the escrow.
#[derive(Clone, Copy, Debug, PartialEq, Eq)]
pub enum DataKey {
    Config,
    Released,
}

/// What the escrow is bound to; `A` is the chain's address type.
#[derive(Clone, Debug)]
pub struct Config<A> {
    /// The Letter-of-Credit id this escrow is bound to.
    pub lc_id: u64,
    /// sha256 of the canonical LC terms; binds proofs to the real terms.
    pub terms_digest: [u8; 32],
    /// The pinned image id of the compliance program.
    pub image_id: [u8; 32],
    /// The proof verifier's address.
    pub router: A,
    /// The stablecoin used for settlement.
    pub token: A,
    /// The beneficiary that receives funds on a valid presentation.
    pub seller: A,
}

/// Why the escrow refused a call.
#[derive(Clone, Copy, Debug, PartialEq, Eq)]
pub enum EscrowError {
    /// `init` on an escrow that is already initialized.
    AlreadyInitialized,
    /// Any call but `init` before `init`.
    NotInitialized,
    /// `release` on an escrow that was already released.
    AlreadyReleased,
    /// The journal names another LC.
    LcIdMismatch,
    /// The journal's terms digest is not this LC's.
    TermsDigestMismatch,
}

/// The message the contract aborts with for each refusal.
pub open spec fn escrow_error_message(e: EscrowError) -> &'static str {
    match e {
        EscrowError::AlreadyInitialized => "already initialized",
        EscrowError::NotInitialized => "escrow not initialized",
        EscrowError::AlreadyReleased => "escrow already released",
        EscrowError::LcIdMismatch => "journal lc_id does not match this escrow",
        EscrowError::TermsDigestMismatch => "journal terms digest does not match this LC",
    }
}

impl EscrowError {
    /// The message the contract aborts with.
    pub fn message(&self) -> (m: &'static str)
        ensures
            m@ == escrow_error_message(*self)@,
    {
        match self {
            EscrowError::AlreadyInitialized => "already initialized",
            EscrowError::NotInitialized => "escrow not initialized",
            EscrowError::AlreadyReleased => "escrow already released",
            EscrowError::LcIdMismatch => "journal lc_id does not match this escrow",
            EscrowError::TermsDigestMismatch => "journal terms digest does not match this LC",
        }
    }
}

/// The transfer a successful release makes: `amount` of `token` from the
/// escrow to `to`.
#[derive(Clone, Debug)]
pub struct Payout<A> {
    pub token: A,
    pub to: A,
    pub amount: u64,
}

/// The escrow's stored state: its configuration once initialized, and
/// whether it has been released.
#[derive(Debug)]
pub struct EscrowContract<A> {
    pub config: Option<Config<A>>,
    pub released: bool,
}

/// The state after `init`, and its outcome.
pub open spec fn init_spec<A>(s: EscrowContract<A>, cfg: Config<A>) -> (
    EscrowContract<A>,
    Result<(), EscrowError>,
) {
    if s.config is Some {
        (s, Err(EscrowError::AlreadyInitialized))
    } else {
        (EscrowContract { config: Some(cfg), released: false }, Ok(()))
    }
}

/// Whether the escrow may go on to verify a proof for a release.
pub open spec fn release_gate_spec<A>(s: EscrowContract<A>) -> Result<(), EscrowError> {
    if s.config is None {
        Err(EscrowError::NotInitialized)
    } else if s.released {
        Err(EscrowError::AlreadyReleased)
    } else {
        Ok(())
    }
}

/// The outcome of settling a verified journal: the amount to pay out, or
/// why the escrow refuses.
pub open spec fn settle_outcome<A>(s: EscrowContract<A>, journal: Seq<u8>) -> Result<u64, EscrowError> {
    match release_gate_spec(s) {
        Err(e) => Err(e),
        Ok(()) => {
            let cfg = s.config->0;
            if spec_u64_from_le_bytes(journal.subrange(0, 8)) != cfg.lc_id {
                Err(EscrowError::LcIdMismatch)
            } else if journal.subrange(16, 48) != cfg.terms_digest@ {
                Err(EscrowError::TermsDigestMismatch)
            } else {
                Ok(spec_u64_from_le_bytes(journal.subrange(8, 16)))
            }
        },
    }
}

/// The state after settling a verified journal.
pub open spec fn settle_state<A>(s: EscrowContract<A>, journal: Seq<u8>) -> EscrowContract<A> {
    EscrowContract {
        config: s.config,
        released: s.released || settle_outcome(s, journal) is Ok,
    }
}

impl<A: Clone> EscrowContract<A> {
    /// A fresh, uninitialized escrow.
    pub fn new() -> (s: Self)
        ensures
            s.config is None,
            !s.released,
    {
        EscrowContract { config: None, released: false }
    }

    /// Initialize the escrow against a specific LC. Callable once.
    pub fn init(&mut self, cfg: Config<A>) -> (r: Result<(), EscrowError>)
        ensures
            (*final(self), r) == init_spec(*old(self), cfg),
    {
        if self.config.is_some() {
            return Err(EscrowError::AlreadyInitialized);
        }
        self.config = Some(cfg);
        self.released = false;
        Ok(())
    }

    /// The configuration, for the calls that need it (such as funding).
    pub fn config(&self) -> (r: Result<&Config<A>, EscrowError>)
        ensures
            match self.config {
                Some(c) => r == Ok::<&Config<A>, EscrowError>(&c),
                None => r == Err::<&Config<A>, EscrowError>(EscrowError::NotInitialized),
            },
    {
        match &self.config {
            Some(c) => Ok(c),
            None => Err(EscrowError::NotInitialized),
        }
    }

    /// Whether this escrow has been released.
    pub fn is_released(&self) -> (b: bool)
        ensures
            b == self.released,
    {
        self.released
    }

    /// Check, before any proof is verified, that a release may proceed:
    /// the escrow is initialized and not released yet.
    pub fn release_gate(&self) -> (r: Result<&Config<A>, EscrowError>)
        ensures
            match release_gate_spec(*self) {
                Ok(()) => r == Ok::<&Config<A>, EscrowError>(&self.config->0),
                Err(e) => r == Err::<&Config<A>, EscrowError>(e),
            },
    {
        match &self.config {
            None => Err(EscrowError::NotInitialized),
            Some(c) => {
                if self.released {
                    Err(EscrowError::AlreadyReleased)
                } else {
                    Ok(c)
                }
            },
        }
    }

    /// Settle the whole journal the guest committed, once its proof has been
    /// verified against the SHA-256 of all `JOURNAL_LEN` bytes: bind it to
    /// this LC and its exact terms, mark the escrow released, and return the
    /// transfer of the proven amount to the seller.
    pub fn settle(&mut self, journal: &[u8; JOURNAL_LEN]) -> (r: Result<Payout<A>, EscrowError>)
        ensures
            *final(self) == settle_state(*old(self), journal@),
            match settle_outcome(*old(self), journal@) {
                Ok(amount) => r matches Ok(p) && p.amount == amount && cloned(
                    old(self).config->0.token,
                    p.token,
                ) && cloned(old(self).config->0.seller, p.to),
                Err(e) => r == Err::<Payout<A>, EscrowError>(e),
            },
    {
        let cfg = match self.release_gate() {
            Ok(c) => c,
            Err(e) => {
                return Err(e);
            },
        };
        let claim: SettlementClaim = parse_settlement_claim(journal);
        if claim.lc_id != cfg.lc_id {
            return Err(EscrowError::LcIdMismatch);
        }
        if !bytes32_eq(&claim.terms_digest, &cfg.terms_digest) {
            return Err(EscrowError::TermsDigestMismatch);
        }
        let payout = Payout {
            token: cfg.token.clone(),
            to: cfg.seller.clone(),
            amount: claim.release_amount,
        };
        self.released = true;
        Ok(payout)
    }
}

// --- laws ------------------------------------------------------------------

/// An escrow is initialized at most once: once `init` has succeeded, every
/// later `init` is refused and leaves the configuration as it was.
pub proof fn lemma_init_once<A>(s: EscrowContract<A>, first: Config<A>, second: Config<A>)
    requires
        init_spec(s, first).1 is Ok,
    ensures
        init_spec(init_spec(s, first).0, second).1 == Err::<(), EscrowError>(
            EscrowError::AlreadyInitialized,
        ),
        init_spec(init_spec(s, first).0, second).0 == init_spec(s, first).0,
{
}

/// An escrow pays out at most once: after a successful settlement every
/// later release is refused as already released, before and after proof
/// verification, and the state stays released.
pub proof fn lemma_release_once<A>(s: EscrowContract<A>, first: Seq<u8>, later: Seq<u8>)
    requires
        settle_outcome(s, first) is Ok,
    ensures
        release_gate_spec(settle_state(s, first)) == Err::<(), EscrowError>(
            EscrowError::AlreadyReleased,
        ),
        settle_outcome(settle_state(s, first), later) == Err::<u64, EscrowError>(
            EscrowError::AlreadyReleased,
        ),
        settle_state(settle_state(s, first), later) == settle_state(s, first),
{
}

/// A settled journal is bound to this escrow: it names this LC and carries
/// exactly this LC's terms digest, and the escrow was initialized and not
/// yet released.
pub proof fn lemma_settlement_is_bound<A>(s: EscrowContract<A>, journal: Seq<u8>)
    requires
        settle_outcome(s, journal) is Ok,
    ensures
        s.config is Some,
        !s.released,
        spec_u64_from_le_bytes(journal.subrange(0, 8)) == s.config->0.lc_id,
        journal.subrange(16, 48) == s.config->0.terms_digest@,
{
}

/// A reachable escrow state: it can only have been released once initialized.
pub open spec fn escrow_wf<A>(s: EscrowContract<A>) -> bool {
    s.released ==> s.config is Some
}

/// Every call keeps the escrow's state reachable, starting from a fresh one.
pub proof fn lemma_wf_preserved<A>(s: EscrowContract<A>, cfg: Config<A>, journal: Seq<u8>)
    requires
        escrow_wf(s),
    ensures
        escrow_wf(EscrowContract::<A> { config: None, released: false }),
        escrow_wf(init_spec(s, cfg).0),
        escrow_wf(settle_state(s, journal)),
{
}

/// Released stays released: no call of the escrow clears the flag.
pub proof fn lemma_released_is_permanent<A>(s: EscrowContract<A>, cfg: Config<A>, journal: Seq<u8>)
    requires
        escrow_wf(s),
        s.released,
    ensures
        init_spec(s, cfg).0.released,
        settle_state(s, journal).released,
{
}

/// The journal of a compliant presentation, settled by an unreleased
/// escrow initialized for the same LC and the same terms, releases exactly
/// the invoiced amount and leaves the escrow released.
pub proof fn lemma_compliant_journal_settles<A>(s: EscrowContract<A>, terms: LcTerms, docs: DocumentSet)
    requires
        first_violation(terms, docs) is None,
        s.config matches Some(c) && c.lc_id == terms.lc_id && c.terms_digest@ == sha256_spec(
            terms_digest_preimage(terms),
        ),
        !s.released,
    ensures
        settle_outcome(s, compliant_journal(terms, docs)) == Ok::<u64, EscrowError>(
            docs.invoice.amount,
        ),
        settle_state(s, compliant_journal(terms, docs)).released,
{
    lemma_le_widths();
    vstd::bytes::lemma_auto_spec_u64_to_from_le_bytes();
    let td = sha256_spec(terms_digest_preimage(terms));
    let p = compliant_journal(terms, docs);
    assert(td.len() == 32);
    assert(p.subrange(0, 8) =~= vstd::bytes::spec_u64_to_le_bytes(terms.lc_id));
    assert(p.subrange(8, 16) =~= vstd::bytes::spec_u64_to_le_bytes(docs.invoice.amount));
    assert(p.subrange(16, 48) =~= td);
}

} // verus!
