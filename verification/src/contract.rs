//! The verified core of the minting contract: the security policy
//! around the verifier, plus the token-id counter. Persistence, token
//! ownership bookkeeping and the cross-chain dispatch stay with the
//! caller; this core decides, and says exactly when minting is allowed.
use vstd::prelude::*;

verus! {

use crate::VerifyError;
use crate::points::Scalar;
use crate::codec::VerifyingKey;
use crate::gate::{VerificationGate, submit_spec, check_spec, MAX_PROOF_AGE, NULLIFIER_INDEX};
use crate::groth16::{scalar_views, all_scalars_wf};

/// The contract core: the security policy and the next token id.
pub struct ZKMintContract {
    pub gate: VerificationGate,
    pub next_token_id: u64,
}

impl ZKMintContract {
    pub open spec fn wf(self) -> bool {
        self.gate.wf()
    }

    /// A fresh core: token ids start at 1, no nullifier consumed.
    pub fn constructor(vk: VerifyingKey, min_required_balance: Scalar) -> (r: ZKMintContract)
        requires
            vk.wf(),
            min_required_balance.wf(),
        ensures
            r.wf(),
            r.next_token_id == 1,
            r.gate.vk == vk,
            r.gate.min_balance_threshold == min_required_balance,
            r.gate.used_nullifiers@ == Seq::<Seq<u8>>::empty(),
    {
        ZKMintContract { gate: VerificationGate::new(vk, min_required_balance), next_token_id: 1 }
    }

    /// The read-only check: no policy, no state change.
    pub fn verify_proof(&self, proof_data: &Vec<u8>, public_inputs: &Vec<Scalar>) -> (r: Result<
        bool,
        VerifyError,
    >)
        requires
            self.wf(),
            all_scalars_wf(public_inputs@),
        ensures
            r == check_spec(self.gate.vk@, proof_data@, scalar_views(public_inputs@)),
    {
        self.gate.verify_proof(proof_data, public_inputs)
    }

    /// The gated action. On `Ok` the returned token id is the old
    /// counter, the counter advanced and the nullifier was consumed,
    /// strictly in that order and only after every check passed; on any
    /// error nothing changed.
    pub fn mint_with_zk_proof(
        &mut self,
        proof_data: &Vec<u8>,
        public_inputs: &Vec<Scalar>,
        now: u64,
    ) -> (r: Result<u64, VerifyError>)
        requires
            old(self).wf(),
            all_scalars_wf(public_inputs@),
            old(self).next_token_id < u64::MAX,
        ensures
            final(self).wf(),
            (match r {
                Ok(id) => submit_spec(
                    old(self).gate.vk@,
                    old(self).gate.min_balance_threshold.bytes@,
                    old(self).gate.used_nullifiers@,
                    proof_data@,
                    scalar_views(public_inputs@),
                    now,
                ) == Result::<(), VerifyError>::Ok(()) && id == old(self).next_token_id,
                Err(e) => submit_spec(
                    old(self).gate.vk@,
                    old(self).gate.min_balance_threshold.bytes@,
                    old(self).gate.used_nullifiers@,
                    proof_data@,
                    scalar_views(public_inputs@),
                    now,
                ) == Result::<(), VerifyError>::Err(e),
            }),
            r is Ok ==> final(self).next_token_id == old(self).next_token_id + 1
                && final(self).gate.used_nullifiers@ == old(self).gate.used_nullifiers@.push(
                public_inputs@[NULLIFIER_INDEX as int].bytes@,
            ),
            r is Err ==> *final(self) == *old(self),
            final(self).gate.vk == old(self).gate.vk,
            final(self).gate.min_balance_threshold == old(self).gate.min_balance_threshold,
    {
        match self.gate.submit(proof_data, public_inputs, now) {
            Ok(()) => {
                let id = self.next_token_id;
                self.next_token_id = id + 1;
                Ok(id)
            },
            Err(e) => Err(e),
        }
    }

    pub fn get_next_token_id(&self) -> (r: u64)
        ensures
            r == self.next_token_id,
    {
        self.next_token_id
    }

    pub fn get_max_proof_age(&self) -> (r: u64)
        ensures
            r == MAX_PROOF_AGE,
    {
        MAX_PROOF_AGE
    }

    pub fn get_min_required_balance(&self) -> (r: Scalar)
        ensures
            r.bytes@ == self.gate.min_balance_threshold.bytes@,
    {
        self.gate.get_min_required_balance()
    }

    /// Rebinds the threshold; that only an owner may call this is the
    /// caller's check, as is knowing who the owner is.
    pub fn set_min_required_balance(&mut self, new_min_balance: Scalar)
        requires
            old(self).wf(),
            new_min_balance.wf(),
        ensures
            final(self).wf(),
            final(self).gate.min_balance_threshold == new_min_balance,
            final(self).gate.vk == old(self).gate.vk,
            final(self).gate.used_nullifiers == old(self).gate.used_nullifiers,
            final(self).next_token_id == old(self).next_token_id,
    {
        self.gate.set_min_required_balance(new_min_balance);
    }

    /// No verifying key is compiled into this library: keys are given to
    /// the constructor. This always answers a `FormatError` and changes
    /// nothing.
    pub fn set_hardcoded_verifying_key(&mut self) -> (r: Result<(), VerifyError>)
        ensures
            r == Result::<(), VerifyError>::Err(VerifyError::FormatError),
            *final(self) == *old(self),
    {
        Err(VerifyError::FormatError)
    }
}

} // verus!
