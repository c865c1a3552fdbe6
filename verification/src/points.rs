//! Curve point and scalar value types, and G1 negation.
//!
//! All values are plain big-endian byte strings. An all-zero encoding
//! denotes the group identity (the point at infinity) by convention.
//! Negation is computed locally: the y coordinate is replaced by
//! `p - y` where `p` is the BN254 base-field modulus, as a byte-by-byte
//! big-endian subtraction with borrow.
use vstd::prelude::*;

verus! {

use vstd::pervasive::VecAdditionalExecFns;
use vstd::arithmetic::div_mod::lemma_fundamental_div_mod_converse;
use crate::bytes::{
    be_val,
    be_bytes,
    pow256,
    is_zero_seq,
    all_zero,
    clone_bytes,
    lemma_be_val_bound,
    lemma_be_val_injective,
    lemma_be_val_of_be_bytes,
    lemma_be_bytes_len,
    lemma_be_val_cut,
    lemma_zero_seq_val,
};

/// The number of 32-byte strings: `pow256(32)`.
pub open spec fn r256() -> nat {
    0x1_0000_0000_0000_0000_0000_0000_0000_0000_0000_0000_0000_0000_0000_0000_0000_0000nat
}

/// The big-endian bytes of the BN254 base-field modulus
/// 21888242871839275222246405745257275088696311157297823662689037894645226208583.
pub open spec fn fq_modulus_seq() -> Seq<u8> {
    seq![
        0x30u8, 0x64, 0x4e, 0x72, 0xe1, 0x31, 0xa0, 0x29, 0xb8, 0x50, 0x45, 0xb6, 0x81, 0x81, 0x58,
        0x5d, 0x97, 0x81, 0x6a, 0x91, 0x68, 0x71, 0xca, 0x8d, 0x3c, 0x20, 0x8c, 0x16, 0xd8, 0x7c,
        0xfd, 0x47,
    ]
}

/// The BN254 base-field modulus, as the value of its byte string.
pub open spec fn fq_modulus() -> nat {
    be_val(fq_modulus_seq())
}

pub proof fn lemma_fq_modulus_seq_val()
    ensures
        fq_modulus_seq().len() == 32,
        fq_modulus() < r256(),
        pow256(32) == r256(),
{
    assert(fq_modulus_seq().len() == 32);
    crate::bytes::lemma_pow256_32();
    lemma_be_val_bound(fq_modulus_seq());
}

/// The big-endian bytes of the modulus, as a runtime value.
pub fn fq_modulus_bytes() -> (r: Vec<u8>)
    ensures
        r@ == fq_modulus_seq(),
{
    let r: Vec<u8> = vec![
        0x30u8, 0x64, 0x4e, 0x72, 0xe1, 0x31, 0xa0, 0x29, 0xb8, 0x50, 0x45, 0xb6, 0x81, 0x81, 0x58,
        0x5d, 0x97, 0x81, 0x6a, 0x91, 0x68, 0x71, 0xca, 0x8d, 0x3c, 0x20, 0x8c, 0x16, 0xd8, 0x7c,
        0xfd, 0x47,
    ];
    proof {
        assert(r@ =~= fq_modulus_seq());
    }
    r
}

/// A G1 point: 32-byte big-endian x, then 32-byte big-endian y.
#[derive(Debug)]
pub struct G1Point {
    pub x: Vec<u8>,
    pub y: Vec<u8>,
}

/// A G2 point: x0, x1, y0, y1, each 32-byte big-endian, as one string.
#[derive(Debug)]
pub struct G2Point {
    pub bytes: Vec<u8>,
}

/// A 32-byte big-endian scalar.
#[derive(Debug)]
pub struct Scalar {
    pub bytes: Vec<u8>,
}

impl G1Point {
    pub open spec fn wf(self) -> bool {
        self.x@.len() == 32 && self.y@.len() == 32
    }

    /// The 64-byte wire encoding.
    pub open spec fn enc(self) -> Seq<u8> {
        self.x@ + self.y@
    }

    pub open spec fn is_identity_spec(self) -> bool {
        is_zero_seq(self.x@) && is_zero_seq(self.y@)
    }

    /// All-zero bytes denote the identity.
    pub fn is_identity(&self) -> (r: bool)
        ensures
            r <==> self.is_identity_spec(),
    {
        all_zero(&self.x) && all_zero(&self.y)
    }

    pub fn clone_point(&self) -> (r: G1Point)
        ensures
            r.x@ == self.x@,
            r.y@ == self.y@,
    {
        G1Point { x: clone_bytes(&self.x), y: clone_bytes(&self.y) }
    }

    /// Negation of a G1 point: the identity is its own negation; any
    /// other point keeps x and replaces y by `p - y` computed with a
    /// byte-by-byte big-endian borrow, so the new y value is
    /// `(p - y) mod 2^256`.
    pub fn negate(&self) -> (r: G1Point)
        requires
            self.wf(),
        ensures
            r.wf(),
            r.enc() == neg64(self.enc()),
            r.x@ == self.x@,
    {
        proof {
            lemma_enc_parts(*self);
        }
        if self.is_identity() {
            return self.clone_point();
        }
        let prime = fq_modulus_bytes();
        let mut out: Vec<u8> = clone_bytes(&self.y);
        let mut borrow: u8 = 0;
        let mut i: usize = 32;
        proof {
            lemma_fq_modulus_seq_val();
            assert(out@.subrange(32, 32) =~= Seq::<u8>::empty());
            assert(self.y@.subrange(32, 32) =~= Seq::<u8>::empty());
            assert(fq_modulus_seq().subrange(32, 32) =~= Seq::<u8>::empty());
        }
        while i > 0
            invariant
                i <= 32,
                out@.len() == 32,
                self.y@.len() == 32,
                prime@ == fq_modulus_seq(),
                borrow == 0 || borrow == 1,
                be_val(out@.subrange(i as int, 32)) + be_val(self.y@.subrange(i as int, 32))
                    == be_val(fq_modulus_seq().subrange(i as int, 32)) + borrow * pow256(
                    (32 - i) as nat,
                ),
            decreases i,
        {
            let j = i - 1;
            let ghost out_before = out@;
            let ghost bo = borrow as int;
            let d: i32 = prime[j] as i32 - borrow as i32 - self.y[j] as i32;
            if d >= 0 {
                out.set(j, d as u8);
                borrow = 0;
            } else {
                out.set(j, (d + 256) as u8);
                borrow = 1;
            }
            proof {
                lemma_sub_step(
                    out@,
                    out_before,
                    self.y@,
                    fq_modulus_seq(),
                    j as int,
                    bo,
                    borrow as int,
                );
            }
            i = j;
        }
        proof {
            assert(out@.subrange(0, 32) =~= out@);
            assert(self.y@.subrange(0, 32) =~= self.y@);
            assert(fq_modulus_seq().subrange(0, 32) =~= fq_modulus_seq());
            lemma_fq_modulus_seq_val();
            lemma_be_val_bound(out@);
            lemma_be_val_bound(self.y@);
            let p = fq_modulus() as int;
            let yv = be_val(self.y@) as int;
            let ov = be_val(out@) as int;
            let rr = r256() as int;
            // out + y == p + borrow * 2^256, with 0 <= out < 2^256,
            // so out is exactly (p - y) mod 2^256
            lemma_fundamental_div_mod_converse(p - yv, rr, -(borrow as int), ov);
            assert(ov == (p - yv) % rr);
            lemma_be_val_of_be_bytes(ov as nat, 32);
            lemma_be_bytes_len(ov as nat, 32);
            lemma_be_val_injective(out@, be_bytes(ov as nat, 32));
            assert(out@ == neg_y_bytes(self.y@));
        }
        let r = G1Point { x: clone_bytes(&self.x), y: out };
        proof {
            lemma_enc_parts(r);
            assert(r.enc() == neg64(self.enc()));
        }
        r
    }
}

/// The replaced y bytes of a negated point: `(p - y) mod 2^256`,
/// encoded big-endian in 32 bytes.
pub open spec fn neg_y_bytes(y: Seq<u8>) -> Seq<u8> {
    be_bytes(((fq_modulus() as int - be_val(y) as int) % (r256() as int)) as nat, 32)
}

/// Negation on the 64-byte wire encoding of a G1 point.
pub open spec fn neg64(p: Seq<u8>) -> Seq<u8> {
    if is_zero_seq(p) {
        p
    } else {
        p.subrange(0, 32) + neg_y_bytes(p.subrange(32, 64))
    }
}

/// Relates the encoding of a well-formed point to its two halves.
pub proof fn lemma_enc_parts(p: G1Point)
    requires
        p.wf(),
    ensures
        p.enc().len() == 64,
        p.enc().subrange(0, 32) == p.x@,
        p.enc().subrange(32, 64) == p.y@,
        is_zero_seq(p.enc()) <==> p.is_identity_spec(),
        neg64(p.enc()) == if p.is_identity_spec() {
            p.enc()
        } else {
            p.x@ + neg_y_bytes(p.y@)
        },
{
    assert(p.enc().subrange(0, 32) =~= p.x@);
    assert(p.enc().subrange(32, 64) =~= p.y@);
    if is_zero_seq(p.enc()) {
        assert forall|k: int| 0 <= k < 32 implies p.x@[k] == 0 && p.y@[k] == 0 by {
            assert(p.enc()[k] == 0);
            assert(p.enc()[k + 32] == 0);
        }
    }
    if p.is_identity_spec() {
        assert forall|k: int| 0 <= k < 64 implies p.enc()[k] == 0 by {
            if k < 32 {
                assert(p.x@[k] == 0);
            } else {
                assert(p.y@[k - 32] == 0);
            }
        }
    }
}

/// One step of the borrow subtraction extends the suffix equation
/// `out + y == p + borrow * pow256(len)` by the byte at `j`.
proof fn lemma_sub_step(
    out: Seq<u8>,
    out_before: Seq<u8>,
    y: Seq<u8>,
    p: Seq<u8>,
    j: int,
    bo: int,
    bn: int,
)
    requires
        out.len() == 32,
        out_before.len() == 32,
        y.len() == 32,
        p.len() == 32,
        0 <= j < 32,
        out == out_before.update(j, out[j]),
        out[j] + y[j] + bo == p[j] + bn * 256,
        be_val(out_before.subrange(j + 1, 32)) + be_val(y.subrange(j + 1, 32)) == be_val(
            p.subrange(j + 1, 32),
        ) + bo * pow256((32 - (j + 1)) as nat),
    ensures
        be_val(out.subrange(j, 32)) + be_val(y.subrange(j, 32)) == be_val(p.subrange(j, 32)) + bn
            * pow256((32 - j) as nat),
{
    let k = pow256((32 - (j + 1)) as nat);
    assert(out.subrange(j + 1, 32) =~= out_before.subrange(j + 1, 32));
    lemma_be_val_cut(out.subrange(j, 32), 1);
    lemma_be_val_cut(y.subrange(j, 32), 1);
    lemma_be_val_cut(p.subrange(j, 32), 1);
    assert(out.subrange(j, 32).subrange(1, 32 - j) =~= out.subrange(j + 1, 32));
    assert(y.subrange(j, 32).subrange(1, 32 - j) =~= y.subrange(j + 1, 32));
    assert(p.subrange(j, 32).subrange(1, 32 - j) =~= p.subrange(j + 1, 32));
    crate::bytes::lemma_be_val_single(out.subrange(j, 32).subrange(0, 1));
    crate::bytes::lemma_be_val_single(y.subrange(j, 32).subrange(0, 1));
    crate::bytes::lemma_be_val_single(p.subrange(j, 32).subrange(0, 1));
    assert(be_val(out.subrange(j, 32).subrange(0, 1)) == out[j]);
    assert(be_val(y.subrange(j, 32).subrange(0, 1)) == y[j]);
    assert(be_val(p.subrange(j, 32).subrange(0, 1)) == p[j]);
    assert(pow256((32 - j) as nat) == 256 * k);
    assert((out[j] + y[j] + bo) * k == (p[j] + bn * 256) * k) by (nonlinear_arith)
        requires
            out[j] + y[j] + bo == p[j] + bn * 256,
    ;
    assert(out[j] * k + y[j] * k + bo * k == p[j] * k + bn * (256 * k)) by (nonlinear_arith)
        requires
            (out[j] + y[j] + bo) * k == (p[j] + bn * 256) * k,
    ;
}

/// Negation is an involution: negating twice gives the point back.
/// The one encoding this does not hold of is the non-identity encoding
/// whose x half is all zero and whose y half holds exactly the field
/// modulus: its negation collapses to the identity.
pub proof fn lemma_negate_involutive(p: Seq<u8>)
    requires
        p.len() == 64,
        !(is_zero_seq(p.subrange(0, 32)) && !is_zero_seq(p) && be_val(p.subrange(32, 64))
            == fq_modulus()),
    ensures
        neg64(neg64(p)) == p,
{
    lemma_fq_modulus_seq_val();
    if is_zero_seq(p) {
    } else {
        let x = p.subrange(0, 32);
        let y = p.subrange(32, 64);
        let pm = fq_modulus() as int;
        let rr = r256() as int;
        let yv = be_val(y) as int;
        lemma_be_val_bound(y);
        let m1 = (pm - yv) % rr;
        if yv <= pm {
            lemma_fundamental_div_mod_converse(pm - yv, rr, 0, pm - yv);
        } else {
            lemma_fundamental_div_mod_converse(pm - yv, rr, -1, pm - yv + rr);
        }
        let n1 = neg64(p);
        lemma_be_bytes_len(m1 as nat, 32);
        lemma_be_val_of_be_bytes(m1 as nat, 32);
        assert(n1 == x + neg_y_bytes(y));
        assert(n1.len() == 64);
        assert(n1.subrange(0, 32) =~= x);
        assert(n1.subrange(32, 64) =~= neg_y_bytes(y));
        // n1 is not the all-zero encoding
        assert(!is_zero_seq(n1)) by {
            if is_zero_seq(n1) {
                assert forall|k: int| 0 <= k < 32 implies x[k] == 0 by {
                    assert(n1[k] == 0);
                }
                lemma_zero_seq_val(neg_y_bytes(y));
                assert forall|k: int| 0 <= k < 32 implies neg_y_bytes(y)[k] == 0 by {
                    assert(n1[k + 32] == 0);
                }
                assert(m1 == 0);
                // then y holds exactly the modulus, which is excluded
                assert(yv == pm);
                assert(!is_zero_seq(p.subrange(0, 32)));
                let w = choose|w: int| 0 <= w < 32 && x[w] != 0;
                assert(n1[w] == x[w]);
            }
        }
        let m2 = (pm - m1) % rr;
        if yv <= pm {
            lemma_fundamental_div_mod_converse(pm - m1, rr, 0, yv);
        } else {
            lemma_fundamental_div_mod_converse(pm - m1, rr, -1, yv);
        }
        assert(m2 == yv);
        lemma_be_bytes_len(m2 as nat, 32);
        lemma_be_val_of_be_bytes(m2 as nat, 32);
        lemma_be_val_injective(neg_y_bytes(neg_y_bytes(y)), y);
        assert(neg64(n1) == n1.subrange(0, 32) + neg_y_bytes(n1.subrange(32, 64)));
        assert(neg64(n1) =~= p);
    }
}

impl G2Point {
    pub open spec fn wf(self) -> bool {
        self.bytes@.len() == 128
    }
}

impl Scalar {
    pub open spec fn wf(self) -> bool {
        self.bytes@.len() == 32
    }

    /// The scalar's numeric value.
    pub open spec fn val(self) -> nat {
        be_val(self.bytes@)
    }

    pub open spec fn is_zero_spec(self) -> bool {
        is_zero_seq(self.bytes@)
    }

    pub fn is_zero(&self) -> (r: bool)
        ensures
            r <==> self.is_zero_spec(),
    {
        all_zero(&self.bytes)
    }

    pub fn clone_scalar(&self) -> (r: Scalar)
        ensures
            r.bytes@ == self.bytes@,
    {
        Scalar { bytes: clone_bytes(&self.bytes) }
    }
}

} // verus!
