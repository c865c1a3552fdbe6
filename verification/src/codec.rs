//! Wire formats: the fixed 256-byte proof encoding and the
//! variable-length verifying-key encoding.
use vstd::prelude::*;

verus! {

use crate::VerifyError;
use crate::bytes::{be_val, copy_range};
use crate::points::{G1Point, G2Point};

/// The mathematical content of a proof: the encodings of its three
/// points.
pub struct ProofView {
    pub a: Seq<u8>,
    pub b: Seq<u8>,
    pub c: Seq<u8>,
}

impl ProofView {
    pub open spec fn wf(self) -> bool {
        self.a.len() == 64 && self.b.len() == 128 && self.c.len() == 64
    }
}

/// The mathematical content of a verifying key.
pub struct VkView {
    pub alpha: Seq<u8>,
    pub beta: Seq<u8>,
    pub gamma: Seq<u8>,
    pub delta: Seq<u8>,
    pub abc: Seq<Seq<u8>>,
}

impl VkView {
    pub open spec fn wf(self) -> bool {
        &&& self.alpha.len() == 64
        &&& self.beta.len() == 128
        &&& self.gamma.len() == 128
        &&& self.delta.len() == 128
        &&& forall|i: int| 0 <= i < self.abc.len() ==> #[trigger] self.abc[i].len() == 64
    }
}

/// How a 256-byte string reads as a proof: a, then b, then c.
pub open spec fn proof_of_bytes(d: Seq<u8>) -> ProofView {
    ProofView { a: d.subrange(0, 64), b: d.subrange(64, 192), c: d.subrange(192, 256) }
}

/// The point count a verifying-key string declares.
pub open spec fn vk_count_of_bytes(d: Seq<u8>) -> nat {
    be_val(d.subrange(448, 452))
}

/// How a verifying-key string reads: alpha, beta, gamma, delta, a
/// 4-byte big-endian count, then that many G1 points.
pub open spec fn vk_of_bytes(d: Seq<u8>) -> VkView {
    VkView {
        alpha: d.subrange(0, 64),
        beta: d.subrange(64, 192),
        gamma: d.subrange(192, 320),
        delta: d.subrange(320, 448),
        abc: Seq::new(vk_count_of_bytes(d), |i: int| d.subrange(452 + 64 * i, 452 + 64 * i + 64)),
    }
}

/// A verifying-key string is well formed when it holds the fixed head
/// and at least as many point bytes as its count declares.
pub open spec fn vk_bytes_ok(d: Seq<u8>) -> bool {
    d.len() >= 452 && d.len() >= 452 + 64 * vk_count_of_bytes(d)
}

/// A Groth16 proof: two G1 points and one G2 point.
#[derive(Debug)]
pub struct ZKProof {
    pub a: G1Point,
    pub b: G2Point,
    pub c: G1Point,
}

impl View for ZKProof {
    type V = ProofView;

    open spec fn view(&self) -> ProofView {
        ProofView { a: self.a.enc(), b: self.b.bytes@, c: self.c.enc() }
    }
}

impl ZKProof {
    pub open spec fn wf(self) -> bool {
        self.a.wf() && self.b.wf() && self.c.wf()
    }

    /// Parses the fixed 256-byte proof format: a in bytes 0..64, b in
    /// 64..192, c in 192..256. Any other length is a `FormatError`; a
    /// 256-byte input always parses. No curve check happens here.
    pub fn deserialize(data: &Vec<u8>) -> (r: Result<ZKProof, VerifyError>)
        ensures
            match r {
                Ok(p) => data@.len() == 256 && p.wf() && p@ == proof_of_bytes(data@),
                Err(e) => data@.len() != 256 && e == VerifyError::FormatError,
            },
    {
        if data.len() != 256 {
            return Err(VerifyError::FormatError);
        }
        let a = g1_from_range(data, 0);
        let b = G2Point { bytes: copy_range(data, 64, 128) };
        let c = g1_from_range(data, 192);
        let p = ZKProof { a, b, c };
        proof {
            assert(p@.a =~= proof_of_bytes(data@).a);
            assert(p@.b =~= proof_of_bytes(data@).b);
            assert(p@.c =~= proof_of_bytes(data@).c);
        }
        Ok(p)
    }
}

/// Reads the 64-byte G1 encoding at `start`.
pub fn g1_from_range(data: &Vec<u8>, start: usize) -> (r: G1Point)
    requires
        start + 64 <= data@.len(),
    ensures
        r.wf(),
        r.enc() == data@.subrange(start as int, start + 64),
{
    let dl = data.len();
    let x = copy_range(data, start, 32);
    let y = copy_range(data, start + 32, 32);
    let r = G1Point { x, y };
    proof {
        assert(r.enc() =~= data@.subrange(start as int, start + 64));
    }
    r
}

/// A Groth16 verifying key.
#[derive(Debug)]
pub struct VerifyingKey {
    pub alpha_g1: G1Point,
    pub beta_g2: G2Point,
    pub gamma_g2: G2Point,
    pub delta_g2: G2Point,
    pub gamma_abc_g1: Vec<G1Point>,
}

impl View for VerifyingKey {
    type V = VkView;

    open spec fn view(&self) -> VkView {
        VkView {
            alpha: self.alpha_g1.enc(),
            beta: self.beta_g2.bytes@,
            gamma: self.gamma_g2.bytes@,
            delta: self.delta_g2.bytes@,
            abc: Seq::new(self.gamma_abc_g1@.len(), |i: int| self.gamma_abc_g1@[i].enc()),
        }
    }
}

impl VerifyingKey {
    pub open spec fn wf(self) -> bool {
        &&& self.alpha_g1.wf()
        &&& self.beta_g2.wf()
        &&& self.gamma_g2.wf()
        &&& self.delta_g2.wf()
        &&& forall|i: int|
            0 <= i < self.gamma_abc_g1@.len() ==> (#[trigger] self.gamma_abc_g1@[i]).wf()
    }

    /// Parses the verifying-key format: alpha (64), beta (128), gamma
    /// (128), delta (128), a 4-byte big-endian point count, then that
    /// many 64-byte G1 points. Fails with `FormatError` when fewer than
    /// 452 bytes are given or when fewer point bytes remain than the
    /// count declares; trailing extra bytes are tolerated.
    pub fn deserialize(data: &Vec<u8>) -> (r: Result<VerifyingKey, VerifyError>)
        ensures
            match r {
                Ok(vk) => vk_bytes_ok(data@) && vk.wf() && vk@ == vk_of_bytes(data@),
                Err(e) => !vk_bytes_ok(data@) && e == VerifyError::FormatError,
            },
    {
        if data.len() < 452 {
            return Err(VerifyError::FormatError);
        }
        let alpha_g1 = g1_from_range(data, 0);
        let beta_g2 = G2Point { bytes: copy_range(data, 64, 128) };
        let gamma_g2 = G2Point { bytes: copy_range(data, 192, 128) };
        let delta_g2 = G2Point { bytes: copy_range(data, 320, 128) };
        let count_bytes = copy_range(data, 448, 4);
        let count = crate::bytes::be_val_u32(&count_bytes) as usize;
        let dl = data.len();
        proof {
            assert(count == vk_count_of_bytes(data@));
            crate::bytes::lemma_pow256_small();
            crate::bytes::lemma_be_val_bound(data@.subrange(448, 452));
            assert(count < 0x1_0000_0000);
        }
        if (data.len() - 452) / 64 < count {
            proof {
                assert(!vk_bytes_ok(data@)) by (nonlinear_arith)
                    requires
                        data@.len() >= 452,
                        ((data@.len() - 452) as int) / 64 < count,
                        count == vk_count_of_bytes(data@),
                ;
            }
            return Err(VerifyError::FormatError);
        }
        proof {
            assert(data@.len() >= 452 + 64 * count) by (nonlinear_arith)
                requires
                    data@.len() >= 452,
                    ((data@.len() - 452) as int) / 64 >= count,
            ;
        }
        let mut gamma_abc_g1: Vec<G1Point> = Vec::new();
        let mut i: usize = 0;
        while i < count
            invariant
                i <= count,
                count < 0x1_0000_0000,
                data@.len() <= usize::MAX,
                data@.len() >= 452 + 64 * count,
                gamma_abc_g1@.len() == i,
                forall|j: int| 0 <= j < i ==> (#[trigger] gamma_abc_g1@[j]).wf(),
                forall|j: int|
                    0 <= j < i ==> (#[trigger] gamma_abc_g1@[j]).enc() == data@.subrange(
                        452 + 64 * j,
                        452 + 64 * j + 64,
                    ),
            decreases count - i,
        {
            proof {
                assert(452 + 64 * (i + 1) <= 452 + 64 * count) by (nonlinear_arith)
                    requires
                        i < count,
                ;
            }
            let p = g1_from_range(data, 452 + 64 * i);
            gamma_abc_g1.push(p);
            i += 1;
        }
        let vk = VerifyingKey { alpha_g1, beta_g2, gamma_g2, delta_g2, gamma_abc_g1 };
        proof {
            assert(vk@.alpha =~= vk_of_bytes(data@).alpha);
            assert(vk@.beta =~= vk_of_bytes(data@).beta);
            assert(vk@.gamma =~= vk_of_bytes(data@).gamma);
            assert(vk@.delta =~= vk_of_bytes(data@).delta);
            assert(vk@.abc =~= vk_of_bytes(data@).abc);
        }
        Ok(vk)
    }
}

} // verus!
