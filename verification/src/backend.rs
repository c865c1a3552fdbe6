//! The BN254 arithmetic backend.
//!
//! Negation lives in `points`; addition, scalar multiplication and the
//! batched pairing check short-circuit the identity cases locally and
//! otherwise delegate, through trusted wrappers, to the in-process
//! implementation of the three EVM BN254 precompiles. What each
//! delegated call returns is named, never restated: the verified code
//! around a call is proved for whatever the engine answers.
use vstd::prelude::*;

verus! {

use crate::VerifyError;
use crate::bytes::{is_zero_seq, append_bytes, clone_bytes, zero_vec};
use crate::points::{G1Point, G2Point};
use crate::codec::g1_from_range;

/// What the ecAdd precompile answers on a 128-byte request (two G1
/// encodings), or nothing where it rejects the request.
pub uninterp spec fn ec_add_res(input: Seq<u8>) -> Option<Seq<u8>>;

/// What the ecMul precompile answers on a 96-byte request (one G1
/// encoding, then one 32-byte scalar), or nothing where it rejects it.
pub uninterp spec fn ec_mul_res(input: Seq<u8>) -> Option<Seq<u8>>;

/// What the ecPairing precompile answers on a request of 192-byte
/// pairs, or nothing where it rejects the request.
pub uninterp spec fn ec_pairing_res(input: Seq<u8>) -> Option<Seq<u8>>;

/// Relies on revm_precompile::bn254::run_add, the EVM ecAdd precompile
/// on BN254 under the default crypto provider: on two valid 64-byte G1 encodings it answers the 64-byte
/// encoding of their sum; input off the curve is rejected.
#[verifier::external_body]
fn ec_add_call(input: &Vec<u8>) -> (r: Result<Vec<u8>, VerifyError>)
    requires
        input@.len() == 128,
    ensures
        match r {
            Ok(v) => ec_add_res(input@) == Some(v@) && v@.len() == 64,
            Err(e) => ec_add_res(input@) is None && e == VerifyError::BackendError,
        },
{
    match revm_precompile::bn254::run_add(input.as_slice(), 150, 1_000_000_000) {
        Ok(out) => Ok(out.bytes.to_vec()),
        Err(_) => Err(VerifyError::BackendError),
    }
}

/// Relies on revm_precompile::bn254::run_mul, the EVM ecMul precompile
/// on BN254 under the default crypto provider: on a valid G1 encoding and a 32-byte big-endian scalar it
/// answers the 64-byte encoding of the scalar multiple; input off the
/// curve is rejected.
#[verifier::external_body]
fn ec_mul_call(input: &Vec<u8>) -> (r: Result<Vec<u8>, VerifyError>)
    requires
        input@.len() == 96,
    ensures
        match r {
            Ok(v) => ec_mul_res(input@) == Some(v@) && v@.len() == 64,
            Err(e) => ec_mul_res(input@) is None && e == VerifyError::BackendError,
        },
{
    match revm_precompile::bn254::run_mul(input.as_slice(), 6_000, 1_000_000_000) {
        Ok(out) => Ok(out.bytes.to_vec()),
        Err(_) => Err(VerifyError::BackendError),
    }
}

/// Relies on revm_precompile::bn254::run_pair, the EVM ecPairing
/// precompile on BN254 under the default crypto provider: on 192-byte pairs of valid G1 and G2 encodings
/// it answers 32 bytes whose last byte says whether the product of
/// pairings is the identity; malformed points are rejected.
#[verifier::external_body]
fn ec_pairing_call(input: &Vec<u8>) -> (r: Result<Vec<u8>, VerifyError>)
    requires
        input@.len() == 768,
    ensures
        match r {
            Ok(v) => ec_pairing_res(input@) == Some(v@) && v@.len() == 32,
            Err(e) => ec_pairing_res(input@) is None && e == VerifyError::BackendError,
        },
{
    match revm_precompile::bn254::run_pair(input.as_slice(), 34_000, 45_000, 1_000_000_000) {
        Ok(out) => Ok(out.bytes.to_vec()),
        Err(_) => Err(VerifyError::BackendError),
    }
}

/// The 64-byte encoding of the G1 identity.
pub open spec fn zero64() -> Seq<u8> {
    Seq::new(64, |i: int| 0u8)
}

/// What `ec_add` returns: the identity is the neutral element locally,
/// every other case is the engine's answer on the concatenated
/// encodings.
pub open spec fn add_res_spec(a: Seq<u8>, b: Seq<u8>) -> Option<Seq<u8>> {
    if is_zero_seq(a) {
        Some(b)
    } else if is_zero_seq(b) {
        Some(a)
    } else {
        ec_add_res(a + b)
    }
}

/// What `ec_mul` returns: a zero scalar or the identity point give the
/// identity locally, every other case is the engine's answer on the
/// point followed by the scalar.
pub open spec fn mul_res_spec(s: Seq<u8>, p: Seq<u8>) -> Option<Seq<u8>> {
    if is_zero_seq(s) || is_zero_seq(p) {
        Some(zero64())
    } else {
        ec_mul_res(p + s)
    }
}

/// The arithmetic backend: the identity short-circuits are local and
/// verified, everything else delegates to the precompile engine.
pub struct PrecompileBackend;

impl PrecompileBackend {
    /// G1 point addition. `add(identity, b) == b` and `add(a, identity) ==
    /// a` hold locally, with no delegated call; everything else is the
    /// engine's answer, and its rejection is a `BackendError`.
    pub fn ec_add(a: &G1Point, b: &G1Point) -> (r: Result<G1Point, VerifyError>)
        requires
            a.wf(),
            b.wf(),
        ensures
            match r {
                Ok(p) => p.wf() && add_res_spec(a.enc(), b.enc()) == Some(p.enc()),
                Err(e) => add_res_spec(a.enc(), b.enc()) is None && e == VerifyError::BackendError,
            },
    {
        proof {
            crate::points::lemma_enc_parts(*a);
            crate::points::lemma_enc_parts(*b);
        }
        if a.is_identity() {
            return Ok(b.clone_point());
        }
        if b.is_identity() {
            return Ok(a.clone_point());
        }
        let mut req: Vec<u8> = Vec::new();
        append_bytes(&mut req, &a.x);
        append_bytes(&mut req, &a.y);
        append_bytes(&mut req, &b.x);
        append_bytes(&mut req, &b.y);
        proof {
            assert(req@ =~= a.enc() + b.enc());
        }
        match ec_add_call(&req) {
            Ok(v) => {
                let p = g1_from_range(&v, 0);
                proof {
                    assert(v@.subrange(0, 64) =~= v@);
                }
                Ok(p)
            },
            Err(e) => Err(e),
        }
    }

    /// G1 scalar multiplication. `scalarMul(0, p) == identity` and
    /// `scalarMul(s, identity) == identity` hold locally, with no delegated
    /// call; everything else is the engine's answer, and its rejection is a
    /// `BackendError`.
    pub fn ec_mul(s: &crate::points::Scalar, p: &G1Point) -> (r: Result<G1Point, VerifyError>)
        requires
            s.wf(),
            p.wf(),
        ensures
            match r {
                Ok(q) => q.wf() && mul_res_spec(s.bytes@, p.enc()) == Some(q.enc()),
                Err(e) => mul_res_spec(s.bytes@, p.enc()) is None && e == VerifyError::BackendError,
            },
    {
        proof {
            crate::points::lemma_enc_parts(*p);
        }
        if s.is_zero() || p.is_identity() {
            let q = g1_identity();
            return Ok(q);
        }
        let mut req: Vec<u8> = Vec::new();
        append_bytes(&mut req, &p.x);
        append_bytes(&mut req, &p.y);
        append_bytes(&mut req, &s.bytes);
        proof {
            assert(req@ =~= p.enc() + s.bytes@);
        }
        match ec_mul_call(&req) {
            Ok(v) => {
                let q = g1_from_range(&v, 0);
                proof {
                    assert(v@.subrange(0, 64) =~= v@);
                }
                Ok(q)
            },
            Err(e) => Err(e),
        }
    }
}

/// The G1 identity point: all-zero bytes.
pub fn g1_identity() -> (r: G1Point)
    ensures
        r.wf(),
        r.is_identity_spec(),
        r.enc() == zero64(),
{
    let r = G1Point { x: zero_vec(32), y: zero_vec(32) };
    proof {
        assert(r.enc() =~= zero64());
    }
    r
}

/// The request the batched pairing check sends: four pairs, each a
/// 64-byte G1 encoding followed by a 128-byte G2 encoding.
pub open spec fn pairing_req(
    a1: Seq<u8>,
    b1: Seq<u8>,
    a2: Seq<u8>,
    b2: Seq<u8>,
    a3: Seq<u8>,
    b3: Seq<u8>,
    a4: Seq<u8>,
    b4: Seq<u8>,
) -> Seq<u8> {
    a1 + b1 + a2 + b2 + a3 + b3 + a4 + b4
}

/// How a pairing response reads: a well-formed response is exactly 32
/// bytes; its last byte 1 means the pairing holds, 0 means it does not,
/// and anything else is a malformed answer, a `BackendError`.
pub open spec fn interpret_pairing(resp: Seq<u8>) -> Result<bool, VerifyError> {
    if resp.len() != 32 {
        Err(VerifyError::BackendError)
    } else if resp[31] == 1 {
        Ok(true)
    } else if resp[31] == 0 {
        Ok(false)
    } else {
        Err(VerifyError::BackendError)
    }
}

/// What `pairing_check` returns on a request: the engine's rejection is
/// a `BackendError`, its answer is read by `interpret_pairing`.
pub open spec fn pairing_res_spec(req: Seq<u8>) -> Result<bool, VerifyError> {
    match ec_pairing_res(req) {
        None => Err(VerifyError::BackendError),
        Some(resp) => interpret_pairing(resp),
    }
}

/// Reads a pairing response: exactly 32 bytes whose last byte is the
/// boolean, 1 for success; a wrong length or any other byte is a
/// malformed answer.
pub fn interpret_pairing_response(resp: &Vec<u8>) -> (r: Result<bool, VerifyError>)
    ensures
        r == interpret_pairing(resp@),
{
    if resp.len() != 32 {
        return Err(VerifyError::BackendError);
    }
    let last = resp[31];
    if last == 1 {
        Ok(true)
    } else if last == 0 {
        Ok(false)
    } else {
        Err(VerifyError::BackendError)
    }
}

/// The batched pairing check over exactly four (G1, G2) pairs, sent as
/// one 768-byte request.
pub fn pairing_check(
    a1: &G1Point,
    b1: &G2Point,
    a2: &G1Point,
    b2: &G2Point,
    a3: &G1Point,
    b3: &G2Point,
    a4: &G1Point,
    b4: &G2Point,
) -> (r: Result<bool, VerifyError>)
    requires
        a1.wf(),
        b1.wf(),
        a2.wf(),
        b2.wf(),
        a3.wf(),
        b3.wf(),
        a4.wf(),
        b4.wf(),
    ensures
        r == pairing_res_spec(
            pairing_req(
                a1.enc(),
                b1.bytes@,
                a2.enc(),
                b2.bytes@,
                a3.enc(),
                b3.bytes@,
                a4.enc(),
                b4.bytes@,
            ),
        ),
{
    let mut req: Vec<u8> = Vec::new();
    append_bytes(&mut req, &a1.x);
    append_bytes(&mut req, &a1.y);
    append_bytes(&mut req, &b1.bytes);
    append_bytes(&mut req, &a2.x);
    append_bytes(&mut req, &a2.y);
    append_bytes(&mut req, &b2.bytes);
    append_bytes(&mut req, &a3.x);
    append_bytes(&mut req, &a3.y);
    append_bytes(&mut req, &b3.bytes);
    append_bytes(&mut req, &a4.x);
    append_bytes(&mut req, &a4.y);
    append_bytes(&mut req, &b4.bytes);
    proof {
        assert(req@ =~= pairing_req(
            a1.enc(),
            b1.bytes@,
            a2.enc(),
            b2.bytes@,
            a3.enc(),
            b3.bytes@,
            a4.enc(),
            b4.bytes@,
        ));
    }
    match ec_pairing_call(&req) {
        Ok(v) => interpret_pairing_response(&v),
        Err(e) => Err(e),
    }
}

/// The identity laws the backend is never consulted for: adding the
/// identity on either side returns the other point, and a zero scalar
/// or an identity point multiplies to the identity.
pub proof fn lemma_identity_shortcuts(a: Seq<u8>, b: Seq<u8>, s: Seq<u8>)
    ensures
        is_zero_seq(a) ==> add_res_spec(a, b) == Some(b),
        is_zero_seq(b) && !is_zero_seq(a) ==> add_res_spec(a, b) == Some(a),
        is_zero_seq(s) ==> mul_res_spec(s, b) == Some(zero64()),
        is_zero_seq(b) ==> mul_res_spec(s, b) == Some(zero64()),
{
}

} // verus!
