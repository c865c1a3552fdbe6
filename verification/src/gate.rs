//! The security gate around the verifier.
//!
//! `VerificationGate` binds the fixed six-field public-input contract, the
//! configured minimum-balance threshold, nullifier replay protection
//! and timestamp freshness around one call of the Groth16 verifier. It
//! is the only component with a side effect: marking a nullifier
//! consumed, strictly after every check has passed.
use vstd::prelude::*;

verus! {

use crate::VerifyError;
use crate::bytes::{be_val, bytes_eq, be_val_u64, clone_bytes};
use crate::points::Scalar;
use crate::codec::{ZKProof, VerifyingKey, VkView, proof_of_bytes};
use crate::groth16::{verify, verify_spec, scalar_views, all_scalars_wf};

/// Proofs older than this many time units are rejected; an age of
/// exactly this bound is still accepted.
pub const MAX_PROOF_AGE: u64 = 300;

/// The position of each field in the fixed public-input order:
/// nullifier, minimum-balance commitment, token contract hash, user
/// address hash, timestamp, oracle commitment.
pub const NULLIFIER_INDEX: usize = 0;

pub const MIN_BALANCE_INDEX: usize = 1;

pub const TIMESTAMP_INDEX: usize = 4;

pub const PUBLIC_INPUT_COUNT: usize = 6;

/// The consumed nullifiers, in order of consumption.
pub struct NullifierStore {
    pub entries: Vec<Vec<u8>>,
}

impl View for NullifierStore {
    type V = Seq<Seq<u8>>;

    open spec fn view(&self) -> Seq<Seq<u8>> {
        self.entries@.map_values(|e: Vec<u8>| e@)
    }
}

impl NullifierStore {
    pub fn new() -> (r: NullifierStore)
        ensures
            r@ == Seq::<Seq<u8>>::empty(),
    {
        let r = NullifierStore { entries: Vec::new() };
        proof {
            assert(r@ =~= Seq::<Seq<u8>>::empty());
        }
        r
    }

    /// Whether the value was consumed before.
    pub fn contains(&self, n: &Vec<u8>) -> (r: bool)
        ensures
            r <==> self@.contains(n@),
    {
        let mut i: usize = 0;
        while i < self.entries.len()
            invariant
                i <= self.entries@.len(),
                forall|j: int| 0 <= j < i ==> self@[j] != n@,
            decreases self.entries@.len() - i,
        {
            if bytes_eq(&self.entries[i], n) {
                proof {
                    assert(self@[i as int] == n@);
                }
                return true;
            }
            i += 1;
        }
        proof {
            if self@.contains(n@) {
                let w = choose|w: int| 0 <= w < self@.len() && self@[w] == n@;
                assert(self@[w] != n@);
            }
        }
        false
    }

    /// Marks the value consumed.
    pub fn insert(&mut self, n: &Vec<u8>)
        ensures
            final(self)@ == old(self)@.push(n@),
    {
        self.entries.push(clone_bytes(n));
        proof {
            assert(self@ =~= old(self)@.push(n@));
        }
    }
}

/// The read-only check: a proof-format failure, then the verifier's own
/// outcome. No policy is enforced and nothing is written.
pub open spec fn check_spec(vk: VkView, proof_data: Seq<u8>, inputs: Seq<Seq<u8>>) -> Result<
    bool,
    VerifyError,
> {
    if proof_data.len() != 256 {
        Err(VerifyError::FormatError)
    } else {
        verify_spec(proof_of_bytes(proof_data), vk, inputs)
    }
}

/// The gated path's outcome, checks in order, cheapest first: the fixed
/// six-field count, the threshold binding, nullifier replay, timestamp
/// freshness (a timestamp after `now` is a `FutureTimestamp`; an age
/// over `MAX_PROOF_AGE` is a `StaleProof`, the bound itself accepted),
/// then the verifier, whose completed negative outcome is a
/// `VerificationFailure`.
pub open spec fn submit_spec(
    vk: VkView,
    threshold: Seq<u8>,
    used: Seq<Seq<u8>>,
    proof_data: Seq<u8>,
    inputs: Seq<Seq<u8>>,
    now: u64,
) -> Result<(), VerifyError> {
    if inputs.len() != PUBLIC_INPUT_COUNT {
        Err(VerifyError::InputCountError)
    } else if inputs[MIN_BALANCE_INDEX as int] != threshold {
        Err(VerifyError::BalanceThresholdMismatch)
    } else if used.contains(inputs[NULLIFIER_INDEX as int]) {
        Err(VerifyError::NullifierReuse)
    } else if be_val(inputs[TIMESTAMP_INDEX as int]) > now {
        Err(VerifyError::FutureTimestamp)
    } else if now - be_val(inputs[TIMESTAMP_INDEX as int]) > MAX_PROOF_AGE {
        Err(VerifyError::StaleProof)
    } else {
        match check_spec(vk, proof_data, inputs) {
            Err(e) => Err(e),
            Ok(false) => Err(VerifyError::VerificationFailure),
            Ok(true) => Ok(()),
        }
    }
}

/// The verifying key and threshold fixed at construction, and
/// the consumed nullifiers.
pub struct VerificationGate {
    pub vk: VerifyingKey,
    pub min_balance_threshold: Scalar,
    pub used_nullifiers: NullifierStore,
}

impl VerificationGate {
    pub open spec fn wf(self) -> bool {
        self.vk.wf() && self.min_balance_threshold.wf()
    }

    pub fn new(vk: VerifyingKey, min_balance_threshold: Scalar) -> (r: VerificationGate)
        requires
            vk.wf(),
            min_balance_threshold.wf(),
        ensures
            r.wf(),
            r.vk == vk,
            r.min_balance_threshold == min_balance_threshold,
            r.used_nullifiers@ == Seq::<Seq<u8>>::empty(),
    {
        VerificationGate { vk, min_balance_threshold, used_nullifiers: NullifierStore::new() }
    }

    /// The read-only check: parses the proof and runs the verifier
    /// against the configured key. No policy check, no state change.
    pub fn verify_proof(&self, proof_data: &Vec<u8>, public_inputs: &Vec<Scalar>) -> (r: Result<
        bool,
        VerifyError,
    >)
        requires
            self.wf(),
            all_scalars_wf(public_inputs@),
        ensures
            r == check_spec(self.vk@, proof_data@, scalar_views(public_inputs@)),
    {
        let proof = match ZKProof::deserialize(proof_data) {
            Ok(p) => p,
            Err(e) => {
                return Err(e);
            },
        };
        verify(&proof, &self.vk, public_inputs)
    }

    /// The gated path. On `Ok` every check passed and the nullifier is
    /// marked consumed, the one write; on any error everything is exactly
    /// as it was.
    pub fn submit(&mut self, proof_data: &Vec<u8>, public_inputs: &Vec<Scalar>, now: u64) -> (r:
        Result<(), VerifyError>)
        requires
            old(self).wf(),
            all_scalars_wf(public_inputs@),
        ensures
            final(self).wf(),
            r == submit_spec(
                old(self).vk@,
                old(self).min_balance_threshold.bytes@,
                old(self).used_nullifiers@,
                proof_data@,
                scalar_views(public_inputs@),
                now,
            ),
            r is Ok ==> final(self).used_nullifiers@ == old(self).used_nullifiers@.push(
                public_inputs@[NULLIFIER_INDEX as int].bytes@,
            ),
            r is Err ==> *final(self) == *old(self),
            final(self).vk == old(self).vk,
            final(self).min_balance_threshold == old(self).min_balance_threshold,
    {
        let ghost ginputs = scalar_views(public_inputs@);
        if public_inputs.len() != PUBLIC_INPUT_COUNT {
            return Err(VerifyError::InputCountError);
        }
        if !bytes_eq(&public_inputs[MIN_BALANCE_INDEX].bytes, &self.min_balance_threshold.bytes) {
            return Err(VerifyError::BalanceThresholdMismatch);
        }
        if self.used_nullifiers.contains(&public_inputs[NULLIFIER_INDEX].bytes) {
            return Err(VerifyError::NullifierReuse);
        }
        match be_val_u64(&public_inputs[TIMESTAMP_INDEX].bytes) {
            Option::None => {
                return Err(VerifyError::FutureTimestamp);
            },
            Option::Some(ts) => {
                if ts > now {
                    return Err(VerifyError::FutureTimestamp);
                }
                if now - ts > MAX_PROOF_AGE {
                    return Err(VerifyError::StaleProof);
                }
            },
        }
        match self.verify_proof(proof_data, public_inputs) {
            Err(e) => Err(e),
            Ok(false) => Err(VerifyError::VerificationFailure),
            Ok(true) => {
                self.used_nullifiers.insert(&public_inputs[NULLIFIER_INDEX].bytes);
                Ok(())
            },
        }
    }

    pub fn get_min_required_balance(&self) -> (r: Scalar)
        ensures
            r.bytes@ == self.min_balance_threshold.bytes@,
    {
        self.min_balance_threshold.clone_scalar()
    }

    pub fn get_max_proof_age(&self) -> (r: u64)
        ensures
            r == MAX_PROOF_AGE,
    {
        MAX_PROOF_AGE
    }

    /// Reconfigures the threshold; the caller enforces who may do so.
    pub fn set_min_required_balance(&mut self, new_threshold: Scalar)
        requires
            old(self).wf(),
            new_threshold.wf(),
        ensures
            final(self).wf(),
            final(self).min_balance_threshold == new_threshold,
            final(self).vk == old(self).vk,
            final(self).used_nullifiers == old(self).used_nullifiers,
    {
        self.min_balance_threshold = new_threshold;
    }

}

/// Replay protection: whenever a submission succeeds, the identical
/// resubmission against the store it leaves behind is rejected with
/// `NullifierReuse`, whatever the proof and the clock say.
pub proof fn lemma_nullifier_replay(
    vk: VkView,
    threshold: Seq<u8>,
    used: Seq<Seq<u8>>,
    proof_data: Seq<u8>,
    inputs: Seq<Seq<u8>>,
    now: u64,
    now2: u64,
)
    requires
        submit_spec(vk, threshold, used, proof_data, inputs, now) == Result::<
            (),
            VerifyError,
        >::Ok(()),
    ensures
        submit_spec(vk, threshold, used.push(inputs[NULLIFIER_INDEX as int]), proof_data, inputs, now2)
            == Result::<(), VerifyError>::Err(VerifyError::NullifierReuse),
{
    let pushed = used.push(inputs[NULLIFIER_INDEX as int]);
    assert(pushed[used.len() as int] == inputs[NULLIFIER_INDEX as int]);
    assert(pushed.contains(inputs[NULLIFIER_INDEX as int]));
}

} // verus!
