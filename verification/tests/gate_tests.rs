//! End-to-end scenarios against the in-process BN254 engine: a fixture
//! verifying key and proofs built so that the Groth16 equation holds.
//!
//! With beta = gamma = delta = B = the G2 generator, alpha = 2*G1,
//! C = 3*G1 and gamma_abc = [1*G1, ..., 7*G1], the equation
//! e(A, B) = e(alpha, beta) * e(vk_x, gamma) * e(C, delta) holds
//! exactly for A = (v + 5)*G1, where v = 1 + sum(inputs[i] * (i + 2)).
use zk_mint_core::backend::PrecompileBackend;
use zk_mint_core::codec::{VerifyingKey, ZKProof};
use zk_mint_core::contract::ZKMintContract;
use zk_mint_core::gate::VerificationGate;
use zk_mint_core::groth16::verify;
use zk_mint_core::points::{G1Point, G2Point, Scalar};
use zk_mint_core::VerifyError;

fn fx_b32(v: u64) -> Vec<u8> {
    let mut b = vec![0u8; 24];
    b.extend_from_slice(&v.to_be_bytes());
    b
}

fn fx_scalar(v: u64) -> Scalar {
    Scalar { bytes: fx_b32(v) }
}

fn fx_g1_mul(k: u64) -> G1Point {
    let g = G1Point { x: fx_b32(1), y: fx_b32(2) };
    PrecompileBackend::ec_mul(&fx_scalar(k), &g).unwrap()
}

/// The BN254 G2 generator, encoded as the pairing engine reads it:
/// imaginary before real, x before y.
fn fx_g2_gen() -> G2Point {
    let mut b = Vec::new();
    b.extend_from_slice(&[
        0x19, 0x8e, 0x93, 0x93, 0x92, 0x0d, 0x48, 0x3a, 0x72, 0x60, 0xbf, 0xb7, 0x31, 0xfb, 0x5d,
        0x25, 0xf1, 0xaa, 0x49, 0x33, 0x35, 0xa9, 0xe7, 0x12, 0x97, 0xe4, 0x85, 0xb7, 0xae, 0xf3,
        0x12, 0xc2,
    ]);
    b.extend_from_slice(&[
        0x18, 0x00, 0xde, 0xef, 0x12, 0x1f, 0x1e, 0x76, 0x42, 0x6a, 0x00, 0x66, 0x5e, 0x5c, 0x44,
        0x79, 0x67, 0x43, 0x22, 0xd4, 0xf7, 0x5e, 0xda, 0xdd, 0x46, 0xde, 0xbd, 0x5c, 0xd9, 0x92,
        0xf6, 0xed,
    ]);
    b.extend_from_slice(&[
        0x09, 0x06, 0x89, 0xd0, 0x58, 0x5f, 0xf0, 0x75, 0xec, 0x9e, 0x99, 0xad, 0x69, 0x0c, 0x33,
        0x95, 0xbc, 0x4b, 0x31, 0x33, 0x70, 0xb3, 0x8e, 0xf3, 0x55, 0xac, 0xda, 0xdc, 0xd1, 0x22,
        0x97, 0x5b,
    ]);
    b.extend_from_slice(&[
        0x12, 0xc8, 0x5e, 0xa5, 0xdb, 0x8c, 0x6d, 0xeb, 0x4a, 0xab, 0x71, 0x80, 0x8d, 0xcb, 0x40,
        0x8f, 0xe3, 0xd1, 0xe7, 0x69, 0x0c, 0x43, 0xd3, 0x7b, 0x4c, 0xe6, 0xcc, 0x01, 0x66, 0xfa,
        0x7d, 0xaa,
    ]);
    G2Point { bytes: b }
}

/// A verifying key whose `gamma_abc_g1` has length 7: one constant
/// coefficient and one per public input.
fn fx_vk() -> VerifyingKey {
    VerifyingKey {
        alpha_g1: fx_g1_mul(2),
        beta_g2: fx_g2_gen(),
        gamma_g2: fx_g2_gen(),
        delta_g2: fx_g2_gen(),
        gamma_abc_g1: (1..=7).map(fx_g1_mul).collect(),
    }
}

fn fx_inputs(vals: &[u64; 6]) -> Vec<Scalar> {
    vals.iter().map(|&v| fx_scalar(v)).collect()
}

/// A 256-byte proof that verifies against `fx_vk` for these inputs.
fn fx_proof(vals: &[u64; 6]) -> Vec<u8> {
    let v: u64 = 1 + vals.iter().enumerate().map(|(i, &s)| s * (i as u64 + 2)).sum::<u64>();
    let a = fx_g1_mul(v + 5);
    let c = fx_g1_mul(3);
    let mut d = Vec::new();
    d.extend_from_slice(&a.x);
    d.extend_from_slice(&a.y);
    d.extend_from_slice(&fx_g2_gen().bytes);
    d.extend_from_slice(&c.x);
    d.extend_from_slice(&c.y);
    d
}

const NOW: u64 = 1_000_000;

const THRESHOLD: u64 = 100;

fn fx_vals(nullifier: u64, timestamp: u64) -> [u64; 6] {
    [nullifier, THRESHOLD, 3, 4, timestamp, 6]
}

fn fx_gate() -> VerificationGate {
    VerificationGate::new(fx_vk(), fx_scalar(THRESHOLD))
}

#[test]
fn reference_proof_verifies() {
    let vals = fx_vals(7, NOW);
    let proof = ZKProof::deserialize(&fx_proof(&vals)).unwrap();
    let r = verify(&proof, &fx_vk(), &fx_inputs(&vals));
    assert_eq!(r.unwrap(), true);
}

#[test]
fn flipping_one_bit_of_any_input_fails_verification() {
    let vals = fx_vals(7, NOW);
    let proof = ZKProof::deserialize(&fx_proof(&vals)).unwrap();
    for i in 0..6 {
        let mut inputs = fx_inputs(&vals);
        inputs[i].bytes[31] ^= 1;
        let r = verify(&proof, &fx_vk(), &inputs);
        assert_eq!(r.unwrap(), false);
    }
}

#[test]
fn wrong_input_count_is_an_error_before_arithmetic() {
    let vals = fx_vals(7, NOW);
    let proof = ZKProof::deserialize(&fx_proof(&vals)).unwrap();
    let short: Vec<Scalar> = (0..5).map(|_| fx_scalar(1)).collect();
    assert_eq!(verify(&proof, &fx_vk(), &short).unwrap_err(), VerifyError::WrongInputCount);
}

#[test]
fn gate_read_only_check_accepts_reference_proof() {
    let vals = fx_vals(11, NOW);
    let gate = fx_gate();
    let r = gate.verify_proof(&fx_proof(&vals), &fx_inputs(&vals));
    assert_eq!(r.unwrap(), true);
}

#[test]
fn gate_end_to_end_mints_once_then_rejects_replay() {
    let vals = fx_vals(42, NOW);
    let mut gate = fx_gate();
    assert_eq!(gate.submit(&fx_proof(&vals), &fx_inputs(&vals), NOW), Ok(()));
    // the identical resubmission is a replay
    assert_eq!(
        gate.submit(&fx_proof(&vals), &fx_inputs(&vals), NOW).unwrap_err(),
        VerifyError::NullifierReuse
    );
}

#[test]
fn gate_rejects_reused_nullifier_even_with_fresh_proof() {
    let mut gate = fx_gate();
    let first = fx_vals(42, NOW);
    assert_eq!(gate.submit(&fx_proof(&first), &fx_inputs(&first), NOW), Ok(()));
    // a different, valid proof bound to the same nullifier
    let second = fx_vals(42, NOW - 100);
    assert_eq!(
        gate.submit(&fx_proof(&second), &fx_inputs(&second), NOW).unwrap_err(),
        VerifyError::NullifierReuse
    );
}

#[test]
fn gate_accepts_distinct_nullifiers() {
    let mut gate = fx_gate();
    let first = fx_vals(1, NOW);
    let second = fx_vals(2, NOW);
    assert_eq!(gate.submit(&fx_proof(&first), &fx_inputs(&first), NOW), Ok(()));
    assert_eq!(gate.submit(&fx_proof(&second), &fx_inputs(&second), NOW), Ok(()));
}

#[test]
fn timestamp_at_the_age_bound_is_accepted() {
    let vals = fx_vals(5, NOW - 300);
    let mut gate = fx_gate();
    assert_eq!(gate.submit(&fx_proof(&vals), &fx_inputs(&vals), NOW), Ok(()));
}

#[test]
fn timestamp_one_past_the_age_bound_is_stale() {
    let vals = fx_vals(5, NOW - 301);
    let mut gate = fx_gate();
    assert_eq!(
        gate.submit(&fx_proof(&vals), &fx_inputs(&vals), NOW).unwrap_err(),
        VerifyError::StaleProof
    );
}

#[test]
fn timestamp_in_the_future_is_rejected() {
    let vals = fx_vals(5, NOW + 1);
    let mut gate = fx_gate();
    assert_eq!(
        gate.submit(&fx_proof(&vals), &fx_inputs(&vals), NOW).unwrap_err(),
        VerifyError::FutureTimestamp
    );
}

#[test]
fn huge_timestamp_is_rejected_as_future() {
    let vals = fx_vals(5, NOW);
    let mut inputs = fx_inputs(&vals);
    inputs[4].bytes[0] = 1;
    let mut gate = fx_gate();
    assert_eq!(
        gate.submit(&fx_proof(&vals), &inputs, NOW).unwrap_err(),
        VerifyError::FutureTimestamp
    );
}

#[test]
fn threshold_mismatch_is_rejected_before_verification() {
    // the proof itself would verify, only the binding differs
    let vals = fx_vals(5, NOW);
    let mut gate = VerificationGate::new(fx_vk(), fx_scalar(THRESHOLD + 1));
    assert_eq!(
        gate.submit(&fx_proof(&vals), &fx_inputs(&vals), NOW).unwrap_err(),
        VerifyError::BalanceThresholdMismatch
    );
}

#[test]
fn wrong_public_input_count_at_the_gate() {
    let mut gate = fx_gate();
    let five: Vec<Scalar> = (0..5).map(|_| fx_scalar(1)).collect();
    assert_eq!(
        gate.submit(&vec![0u8; 256], &five, NOW).unwrap_err(),
        VerifyError::InputCountError
    );
}

#[test]
fn malformed_proof_bytes_fail_after_policy_checks() {
    let vals = fx_vals(5, NOW);
    let mut gate = fx_gate();
    assert_eq!(
        gate.submit(&vec![0u8; 255], &fx_inputs(&vals), NOW).unwrap_err(),
        VerifyError::FormatError
    );
}

#[test]
fn cryptographically_invalid_proof_is_a_verification_failure() {
    let vals = fx_vals(5, NOW);
    // a proof built for different inputs: the pairing completes and says no
    let other = fx_vals(6, NOW);
    let mut gate = fx_gate();
    let r = gate.submit(&fx_proof(&other), &fx_inputs(&vals), NOW);
    assert_eq!(r.unwrap_err(), VerifyError::VerificationFailure);
}

#[test]
fn failed_submission_leaves_the_nullifier_unconsumed() {
    let vals = fx_vals(5, NOW - 301);
    let mut gate = fx_gate();
    assert!(gate.submit(&fx_proof(&vals), &fx_inputs(&vals), NOW).is_err());
    let fresh = fx_vals(5, NOW);
    assert_eq!(gate.submit(&fx_proof(&fresh), &fx_inputs(&fresh), NOW), Ok(()));
}

#[test]
fn set_min_required_balance_rebinds_the_threshold() {
    let vals = fx_vals(5, NOW);
    let mut gate = VerificationGate::new(fx_vk(), fx_scalar(THRESHOLD + 1));
    gate.set_min_required_balance(fx_scalar(THRESHOLD));
    assert_eq!(gate.get_min_required_balance().bytes, fx_b32(THRESHOLD));
    assert_eq!(gate.submit(&fx_proof(&vals), &fx_inputs(&vals), NOW), Ok(()));
}

#[test]
fn gate_getters_report_the_configuration() {
    let gate = fx_gate();
    assert_eq!(gate.get_max_proof_age(), 300);
    assert_eq!(gate.get_min_required_balance().bytes, fx_b32(THRESHOLD));
}

#[test]
fn contract_core_mints_sequential_token_ids() {
    let mut core = ZKMintContract::constructor(fx_vk(), fx_scalar(THRESHOLD));
    assert_eq!(core.get_next_token_id(), 1);
    let first = fx_vals(1, NOW);
    let second = fx_vals(2, NOW);
    assert_eq!(core.mint_with_zk_proof(&fx_proof(&first), &fx_inputs(&first), NOW).unwrap(), 1);
    assert_eq!(core.mint_with_zk_proof(&fx_proof(&second), &fx_inputs(&second), NOW).unwrap(), 2);
    assert_eq!(core.get_next_token_id(), 3);
    assert_eq!(
        core.mint_with_zk_proof(&fx_proof(&first), &fx_inputs(&first), NOW).unwrap_err(),
        VerifyError::NullifierReuse
    );
    assert_eq!(core.get_next_token_id(), 3);
}

#[test]
fn contract_core_getters_and_stub_key_setter() {
    let mut core = ZKMintContract::constructor(fx_vk(), fx_scalar(THRESHOLD + 1));
    assert_eq!(core.get_max_proof_age(), 300);
    assert_eq!(core.get_min_required_balance().bytes, fx_b32(THRESHOLD + 1));
    core.set_min_required_balance(fx_scalar(THRESHOLD));
    assert_eq!(core.get_min_required_balance().bytes, fx_b32(THRESHOLD));
    assert_eq!(core.set_hardcoded_verifying_key().unwrap_err(), VerifyError::FormatError);
}
