//! Bill of Zero: the verified core of a zero-knowledge Letter-of-Credit
//! settlement. The library holds the shared data model, the canonical
//! digests and commitments, the Merkle allowlist proofs, the compliance
//! rules that a document presentation must pass, the fixed journal layout,
//! and the decision logic of the escrow and of the terminal front end.

pub mod backend;
pub mod bytes;
pub mod commitment;
pub mod compliance;
pub mod config;
pub mod digest;
pub mod escrow;
pub mod frontend;
pub mod host;
pub mod journal;
pub mod merkle;
pub mod model;
pub mod text;
pub mod util;
