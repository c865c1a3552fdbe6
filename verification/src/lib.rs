//! Verified core of a Groth16 proof-gated minting contract over BN254.
//!
//! The crate parses the fixed binary proof and verifying-key formats,
//! orchestrates the curve arithmetic (negation is computed and proved
//! here; addition, scalar multiplication and the batched pairing check
//! delegate to an in-process BN254 engine behind trusted wrappers), states
//! the Groth16 verification equation as one batched pairing check, and
//! enforces the security gate: public-input binding, nullifier replay
//! protection and timestamp freshness.
use vstd::prelude::*;

pub mod backend;
pub mod bytes;
pub mod codec;
pub mod contract;
pub mod gate;
pub mod groth16;
pub mod points;

verus! {

/// Every failure the core can surface. A caller can tell a malformed
/// input (`FormatError`, the count errors) from a cryptographically
/// invalid proof (`VerificationFailure`) and from a policy rejection
/// (threshold, replay, freshness); `BackendError` marks a fault of the
/// curve engine, never a legitimate negative outcome.
#[derive(Clone, Copy, Debug, PartialEq, Eq, Structural)]
pub enum VerifyError {
    /// Malformed or truncated proof or verifying-key bytes.
    FormatError,
    /// Public-input count does not match the verifying key.
    WrongInputCount,
    /// Public-input count does not match the fixed six-field gate contract.
    InputCountError,
    /// The proof's minimum-balance input differs from the configured threshold.
    BalanceThresholdMismatch,
    /// The nullifier was already consumed.
    NullifierReuse,
    /// The proof's timestamp lies after the current time.
    FutureTimestamp,
    /// The proof's timestamp is older than the maximum accepted age.
    StaleProof,
    /// The curve engine failed or answered with a malformed response.
    BackendError,
    /// The pairing check ran to completion and did not hold.
    VerificationFailure,
}

} // verus!
