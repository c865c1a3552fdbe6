use zk_mint_core::backend::{interpret_pairing_response, PrecompileBackend};
use zk_mint_core::points::{fq_modulus_bytes, G1Point, Scalar};
use zk_mint_core::VerifyError;

fn b32(v: u64) -> Vec<u8> {
    let mut b = vec![0u8; 24];
    b.extend_from_slice(&v.to_be_bytes());
    b
}

fn g1(x: u64, y: u64) -> G1Point {
    G1Point { x: b32(x), y: b32(y) }
}

fn g1_zero() -> G1Point {
    G1Point { x: vec![0u8; 32], y: vec![0u8; 32] }
}

fn g1_gen() -> G1Point {
    g1(1, 2)
}

/// Big-endian subtraction of a small value from a 32-byte string.
fn sub_small(bytes: &[u8], v: u8) -> Vec<u8> {
    let mut out = bytes.to_vec();
    let mut borrow = v as i32;
    for i in (0..32).rev() {
        let d = out[i] as i32 - borrow;
        if d >= 0 {
            out[i] = d as u8;
            borrow = 0;
        } else {
            out[i] = (d + 256) as u8;
            borrow = 1;
        }
    }
    out
}

#[test]
fn negate_identity_is_identity() {
    let z = g1_zero();
    let n = z.negate();
    assert_eq!(n.x, vec![0u8; 32]);
    assert_eq!(n.y, vec![0u8; 32]);
}

#[test]
fn negate_generator_gives_modulus_minus_two() {
    let n = g1_gen().negate();
    assert_eq!(n.x, b32(1));
    assert_eq!(n.y, sub_small(&fq_modulus_bytes(), 2));
}

#[test]
fn negate_twice_gives_the_point_back() {
    for p in [g1_gen(), g1(5, 77), g1(0xffff_ffff, 0)] {
        let back = p.negate().negate();
        assert_eq!(back.x, p.x);
        assert_eq!(back.y, p.y);
    }
}

#[test]
fn negate_collapses_zero_x_modulus_y() {
    // the one encoding the involution does not hold of: x all zero and
    // y exactly the field modulus negates to the identity
    let p = G1Point { x: vec![0u8; 32], y: fq_modulus_bytes() };
    let n = p.negate();
    assert_eq!(n.x, vec![0u8; 32]);
    assert_eq!(n.y, vec![0u8; 32]);
}

#[test]
fn add_identity_left_returns_other_point() {
    // the other point need not lie on the curve: no call is delegated
    let p = g1(123, 456);
    let r = PrecompileBackend::ec_add(&g1_zero(), &p).unwrap();
    assert_eq!(r.x, p.x);
    assert_eq!(r.y, p.y);
}

#[test]
fn add_identity_right_returns_other_point() {
    let p = g1(123, 456);
    let r = PrecompileBackend::ec_add(&p, &g1_zero()).unwrap();
    assert_eq!(r.x, p.x);
    assert_eq!(r.y, p.y);
}

#[test]
fn mul_zero_scalar_gives_identity() {
    let p = g1(123, 456);
    let r = PrecompileBackend::ec_mul(&Scalar { bytes: b32(0) }, &p).unwrap();
    assert_eq!(r.x, vec![0u8; 32]);
    assert_eq!(r.y, vec![0u8; 32]);
}

#[test]
fn mul_identity_point_gives_identity() {
    let r = PrecompileBackend::ec_mul(&Scalar { bytes: b32(7) }, &g1_zero()).unwrap();
    assert_eq!(r.x, vec![0u8; 32]);
    assert_eq!(r.y, vec![0u8; 32]);
}

#[test]
fn add_off_curve_point_is_backend_error() {
    let p = g1(1, 1);
    assert_eq!(PrecompileBackend::ec_add(&p, &p).unwrap_err(), VerifyError::BackendError);
}

#[test]
fn generator_doubling_agrees_between_add_and_mul() {
    let g = g1_gen();
    let doubled = PrecompileBackend::ec_add(&g, &g).unwrap();
    let two_g = PrecompileBackend::ec_mul(&Scalar { bytes: b32(2) }, &g).unwrap();
    assert_eq!(doubled.x, two_g.x);
    assert_eq!(doubled.y, two_g.y);
    assert_ne!(doubled.x, g.x);
}

#[test]
fn adding_a_point_and_its_negation_gives_identity() {
    let g = g1_gen();
    let r = PrecompileBackend::ec_add(&g, &g.negate()).unwrap();
    assert_eq!(r.x, vec![0u8; 32]);
    assert_eq!(r.y, vec![0u8; 32]);
}

#[test]
fn pairing_response_is_read_strictly() {
    assert_eq!(interpret_pairing_response(&vec![0u8; 31]).unwrap_err(), VerifyError::BackendError);
    assert_eq!(interpret_pairing_response(&vec![0u8; 33]).unwrap_err(), VerifyError::BackendError);
    let mut ok = vec![0u8; 32];
    ok[31] = 1;
    assert_eq!(interpret_pairing_response(&ok).unwrap(), true);
    assert_eq!(interpret_pairing_response(&vec![0u8; 32]).unwrap(), false);
    let mut bad = vec![0u8; 32];
    bad[31] = 2;
    assert_eq!(interpret_pairing_response(&bad).unwrap_err(), VerifyError::BackendError);
}
