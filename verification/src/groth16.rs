//! The Groth16 verification equation.
//!
//! The verifier folds the public inputs into the linear combination
//! `vk_x` and settles the equation
//! `e(A, B) * e(-alpha, beta) * e(-vk_x, gamma) * e(-C, delta) == 1`
//! with one batched pairing check.
use vstd::prelude::*;

verus! {

use crate::VerifyError;
use crate::points::{G1Point, Scalar, neg64};
use crate::codec::{ZKProof, VerifyingKey, ProofView, VkView};
use crate::backend::{
    add_res_spec,
    mul_res_spec,
    pairing_req,
    pairing_res_spec,
    pairing_check,
    PrecompileBackend,
};

/// The views of a sequence of scalars.
pub open spec fn scalar_views(s: Seq<Scalar>) -> Seq<Seq<u8>> {
    s.map_values(|x: Scalar| x.bytes@)
}

pub open spec fn all_scalars_wf(s: Seq<Scalar>) -> bool {
    forall|i: int| 0 <= i < s.len() ==> (#[trigger] s[i]).wf()
}

/// The linear combination after the first `n` public inputs:
/// `abc[0] + inputs[0] * abc[1] + ... + inputs[n-1] * abc[n]`,
/// accumulated left to right; the first engine rejection makes the
/// whole fold `None`.
pub open spec fn vk_x_iter(abc: Seq<Seq<u8>>, inputs: Seq<Seq<u8>>, n: int) -> Option<Seq<u8>>
    decreases n,
{
    if n <= 0 {
        Some(abc[0])
    } else {
        match vk_x_iter(abc, inputs, n - 1) {
            Option::None => Option::None,
            Option::Some(acc) => match mul_res_spec(inputs[n - 1], abc[n]) {
                Option::None => Option::None,
                Option::Some(term) => add_res_spec(acc, term),
            },
        }
    }
}

/// The pairing request the verifier sends: `(A, B)`, `(-alpha, beta)`,
/// `(-vk_x, gamma)`, `(-C, delta)`.
pub open spec fn groth16_req(proof: ProofView, vk: VkView, vkx: Seq<u8>) -> Seq<u8> {
    pairing_req(
        proof.a,
        proof.b,
        neg64(vk.alpha),
        vk.beta,
        neg64(vkx),
        vk.gamma,
        neg64(proof.c),
        vk.delta,
    )
}

/// The verifier's full outcome. A completed pairing check that does not
/// hold is `Ok(false)`, a normal outcome; an engine fault anywhere is
/// `BackendError`; a count mismatch is `WrongInputCount`, found before
/// any arithmetic.
pub open spec fn verify_spec(proof: ProofView, vk: VkView, inputs: Seq<Seq<u8>>) -> Result<
    bool,
    VerifyError,
> {
    if inputs.len() + 1 != vk.abc.len() {
        Err(VerifyError::WrongInputCount)
    } else {
        match vk_x_iter(vk.abc, inputs, inputs.len() as int) {
            Option::None => Err(VerifyError::BackendError),
            Option::Some(vkx) => pairing_res_spec(groth16_req(proof, vk, vkx)),
        }
    }
}

/// Once the fold has failed it stays failed.
proof fn lemma_vk_x_none(abc: Seq<Seq<u8>>, inputs: Seq<Seq<u8>>, k: int, m: int)
    requires
        0 <= k <= m,
        vk_x_iter(abc, inputs, k) is None,
    ensures
        vk_x_iter(abc, inputs, m) is None,
    decreases m,
{
    if k < m {
        lemma_vk_x_none(abc, inputs, k, m - 1);
    }
}

/// Groth16 verification: checks the input count against the key, folds
/// the public inputs into `vk_x`, negates alpha, `vk_x` and C locally,
/// and settles the equation with one batched pairing check.
pub fn verify(proof: &ZKProof, vk: &VerifyingKey, public_inputs: &Vec<Scalar>) -> (r: Result<
    bool,
    VerifyError,
>)
    requires
        proof.wf(),
        vk.wf(),
        all_scalars_wf(public_inputs@),
    ensures
        r == verify_spec(proof@, vk@, scalar_views(public_inputs@)),
{
    let ghost gabc = vk@.abc;
    let ghost ginputs = scalar_views(public_inputs@);
    let nv = vk.gamma_abc_g1.len();
    let n = public_inputs.len();
    if nv == 0 || nv - 1 != n {
        return Err(VerifyError::WrongInputCount);
    }
    let mut vk_x: G1Point = vk.gamma_abc_g1[0].clone_point();
    proof {
        assert(vk_x.enc() =~= gabc[0]);
    }
    let mut i: usize = 0;
    while i < n
        invariant
            i <= n,
            n + 1 == vk.gamma_abc_g1@.len(),
            proof.wf(),
            vk.wf(),
            all_scalars_wf(public_inputs@),
            n == public_inputs@.len(),
            gabc == vk@.abc,
            ginputs == scalar_views(public_inputs@),
            vk_x.wf(),
            vk_x_iter(gabc, ginputs, i as int) == Some(vk_x.enc()),
        decreases n - i,
    {
        let term = match PrecompileBackend::ec_mul(&public_inputs[i], &vk.gamma_abc_g1[i + 1]) {
            Ok(t) => t,
            Err(e) => {
                proof {
                    assert(vk_x_iter(gabc, ginputs, i + 1) is None);
                    lemma_vk_x_none(gabc, ginputs, i + 1, n as int);
                }
                return Err(e);
            },
        };
        let next = match PrecompileBackend::ec_add(&vk_x, &term) {
            Ok(p) => p,
            Err(e) => {
                proof {
                    assert(vk_x_iter(gabc, ginputs, i + 1) is None);
                    lemma_vk_x_none(gabc, ginputs, i + 1, n as int);
                }
                return Err(e);
            },
        };
        vk_x = next;
        i += 1;
    }
    let neg_alpha = vk.alpha_g1.negate();
    let neg_vk_x = vk_x.negate();
    let neg_c = proof.c.negate();
    let r = pairing_check(
        &proof.a,
        &proof.b,
        &neg_alpha,
        &vk.beta_g2,
        &neg_vk_x,
        &vk.gamma_g2,
        &neg_c,
        &vk.delta_g2,
    );
    proof {
        assert(r == verify_spec(proof@, vk@, ginputs));
    }
    r
}

} // verus!
