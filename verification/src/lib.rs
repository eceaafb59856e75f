//! Verifier-side KZG polynomial-commitment checking over the BN254 curve.
//!
//! The crate folds batches of polynomial-commitment openings into single
//! claims and decides them with one pairing equation. Field and group
//! arithmetic, the pairing, and the hash inside the Fiat-Shamir transcript
//! are delegated to outside backends behind narrow trusted wrappers; all
//! protocol logic above them is verified.

pub mod curve;
pub mod kzg;
pub mod scalar;
pub mod transcript;

pub use curve::{G1Point, G2Point};
pub use kzg::{batch_verify_multi_points, fold, fold_proof, derive_gamma, BatchOpeningProof, KzgError, KzgVerifyingKey, OpeningProof};
pub use scalar::Scalar;
