//! The two on-disk facts the front end needs: the deployed contract
//! addresses and the human-readable LC terms.

use vstd::prelude::*;

verus! {

/// Deployed-contract configuration.
#[derive(Debug)]
pub struct Deployment {
    pub network: String,
    pub rpc_url: String,
    pub network_passphrase: String,
    pub router: String,
    pub groth16_verifier: String,
    pub selector: String,
    pub token: String,
    pub seller: String,
    pub deployer: String,
    pub escrow: String,
    pub lc_id: u64,
}

/// The LC terms the bank fixed: credit limit, deadline, and the two parties.
#[derive(Debug)]
pub struct LcTerms {
    pub lc_id: u64,
    pub credit_limit_usdc: u64,
    pub shipment_deadline_unix: u64,
    pub buyer: String,
    pub seller: String,
}

} // verus!
