//! Authenticated multipoint tree (AMT) vector commitments over the BN254
//! pairing: parameter generation from a powers-of-tau setup, recursive batch
//! proof generation, per-row proof verification with a low-degree test, and a
//! deferred verifier that batches pairing checks.

pub mod blob;
pub mod deferred_verification;
pub mod ec_algebra;
pub mod encoder;
pub mod power_tau;
pub mod proofs;
pub mod prove;
pub mod prove_params;
pub mod utils;
pub mod verify_params;
