//! The cork registry, scheduler, and execution dispatcher.
//!
//! The registry is the single shared store of cork records.  It accepts
//! proposals and endorsements, tracks the final height of the
//! coordinating chain, recomputes each live cork's state whenever an
//! input of the quorum/height AND-gate may have changed, and hands
//! executable corks to the dispatcher in deterministic order with an
//! at-most-once guard that survives crash and restart.

use vstd::prelude::*;

use crate::address::NormalizedAddress;
use crate::cork::Cork;
use crate::cork::CorkIdentity;
use crate::cork::CorkState;
use crate::cork::DispatchMarker;
use crate::cork::Endorsement;
use crate::cork::computed_state;
use crate::cork::cork_wf;
use crate::cork::dispatch_precedes;
use crate::cork::dispatchable;
use crate::cork::distinct_u64;
use crate::cork::endorser_id_vec;
use crate::cork::is_dispatchable;
use crate::cork::endorser_ids;
use crate::cork::is_refreshable;
use crate::cork::refreshable;
use crate::cork::state_for;
use crate::encode::EncodedPayload;
use crate::hash::payload_digest;
use crate::hash::payload_hash;
use crate::validators::ValidatorSet;
use crate::validators::contains_id;
use crate::validators::lemma_no_quorum_without_endorsement;
use crate::validators::quorum_met;

verus! {

/// Why a proposal was rejected.
#[derive(Clone, Copy, Debug, PartialEq, Eq, Structural)]
pub enum ProposeError {
    /// The trigger height does not lie strictly above the current final
    /// height.
    PastHeight,
}

/// Why an endorsement was rejected.
#[derive(Clone, Copy, Debug, PartialEq, Eq, Structural)]
pub enum EndorseError {
    /// No cork with this identity is recorded.
    UnknownCork,
    /// The cork is terminal or in flight and takes no more endorsements.
    CorkClosed,
    /// The endorsing identity is not in the active validator set.
    NotEligible,
    /// The validator endorsed before with a different proof token.
    ProofConflict,
}

/// What an accepted endorsement did.
#[derive(Clone, Copy, Debug, PartialEq, Eq, Structural)]
pub enum EndorseOutcome {
    /// The endorsement was recorded.
    Recorded,
    /// The validator had already endorsed with the same proof token; the
    /// call was a no-op.
    AlreadyEndorsed,
}

/// Why a dispatch call was refused.
#[derive(Clone, Copy, Debug, PartialEq, Eq, Structural)]
pub enum DispatchError {
    /// No cork with this identity is recorded.
    UnknownCork,
    /// The cork does not stand `Executable`.
    NotExecutable,
    /// A submission is already in flight and no outcome was recorded;
    /// consult the execution chain before trying again.
    AlreadyInFlight,
    /// No submission is in flight, so there is no outcome to record.
    NotInFlight,
}

/// What became of a submission the dispatcher sent out.
#[derive(Clone, Copy, Debug, PartialEq, Eq, Structural)]
pub enum DispatchOutcome {
    /// The execution chain applied the call.
    Succeeded,
    /// The target rejected the call; retrying cannot help.
    PermanentFailure,
    /// The attempt failed in transit; retrying may help.
    TransientFailure,
}

/// Why a cancellation was refused.
#[derive(Clone, Copy, Debug, PartialEq, Eq, Structural)]
pub enum InvalidateError {
    /// No cork with this identity is recorded.
    UnknownCork,
    /// The submission already left the process, or the cork already
    /// ended; the cancellation cannot be honored.
    TooLate,
}

/// The identity keys of the corks standing in state `st`, in proposal
/// order.
pub open spec fn keys_with_state(s: Seq<Cork>, st: CorkState) -> Seq<(Seq<u8>, u64, u64)>
    decreases s.len(),
{
    if s.len() == 0 {
        Seq::empty()
    } else if s.last().state == st {
        keys_with_state(s.drop_last(), st) + seq![s.last().identity.key()]
    } else {
        keys_with_state(s.drop_last(), st)
    }
}

/// Whether no two corks share an identity key.
pub open spec fn keys_distinct(s: Seq<Cork>) -> bool {
    forall|i: int, j: int| 0 <= i < j < s.len() ==> s[i].identity.key() != s[j].identity.key()
}

/// Whether some cork carries the identity key.
pub open spec fn has_key(s: Seq<Cork>, key: (Seq<u8>, u64, u64)) -> bool {
    exists|i: int| 0 <= i < s.len() && s[i].identity.key() == key
}

/// The position of the cork carrying the identity key.
pub open spec fn index_of_key(s: Seq<Cork>, key: (Seq<u8>, u64, u64)) -> int {
    choose|i: int| 0 <= i < s.len() && s[i].identity.key() == key
}

/// The shared registry of cork records.
pub struct Registry {
    corks: Vec<Cork>,
    validators: ValidatorSet,
    threshold_num: u64,
    threshold_den: u64,
    final_height: u64,
    next_seq: u64,
    max_retries: u64,
}

impl Registry {
    /// Every cork record, in proposal order.
    pub closed spec fn records(self) -> Seq<Cork> {
        self.corks@
    }

    /// The active validator set.
    pub closed spec fn validator_set(self) -> ValidatorSet {
        self.validators
    }

    /// Numerator of the quorum threshold fraction.
    pub closed spec fn quorum_num(self) -> u64 {
        self.threshold_num
    }

    /// Denominator of the quorum threshold fraction.
    pub closed spec fn quorum_den(self) -> u64 {
        self.threshold_den
    }

    /// The highest consensus height observed as final.
    pub closed spec fn height_cursor(self) -> u64 {
        self.final_height
    }

    /// The proposal-order number the next cork will receive.
    pub closed spec fn next_no(self) -> u64 {
        self.next_seq
    }

    /// How many transient dispatch failures are retried before the cork
    /// is failed for operator attention.
    pub closed spec fn retry_cap(self) -> u64 {
        self.max_retries
    }

    /// Whether the recorded endorsements of `c` meet quorum against the
    /// current validator set.
    pub open spec fn cork_quorum(self, c: Cork) -> bool {
        quorum_met(
            self.validator_set()@,
            endorser_ids(c.endorsements@),
            self.quorum_num(),
            self.quorum_den(),
        )
    }

    /// Whether the final height has reached the cork's trigger height.
    pub open spec fn height_reached(self, c: Cork) -> bool {
        self.height_cursor() >= c.identity.height
    }

    /// The live state `c` belongs in under the current validator set and
    /// height.
    pub open spec fn cork_target_state(self, c: Cork) -> CorkState {
        computed_state(self.cork_quorum(c), self.height_reached(c), c.endorsements@.len())
    }

    /// Structural well-formedness: valid validator set and threshold,
    /// distinct identities, well-formed records, proposal numbers
    /// strictly increasing, and in-flight corks always `Executable`.
    pub open spec fn base_wf(self) -> bool {
        &&& self.validator_set().wf()
        &&& self.quorum_den() > 0
        &&& keys_distinct(self.records())
        &&& forall|i: int| 0 <= i < self.records().len() ==> cork_wf(#[trigger] self.records()[i])
        &&& forall|i: int, j: int|
            0 <= i < j < self.records().len() ==> self.records()[i].seq_no
                < self.records()[j].seq_no
        &&& forall|i: int|
            0 <= i < self.records().len() ==> (#[trigger] self.records()[i]).seq_no < self.next_no()
        &&& forall|i: int|
            0 <= i < self.records().len() ==> ((#[trigger] self.records()[i]).marker
                is InFlight ==> self.records()[i].state is Executable)
    }

    /// Every live cork stands in exactly the state the quorum/height
    /// AND-gate assigns it.
    pub open spec fn states_consistent(self) -> bool {
        forall|i: int|
            0 <= i < self.records().len() ==> (refreshable(#[trigger] self.records()[i])
                ==> self.records()[i].state == self.cork_target_state(self.records()[i]))
    }

    /// The registry invariant.
    pub open spec fn wf(self) -> bool {
        self.base_wf() && self.states_consistent()
    }

    /// An empty registry over the given validator set, quorum threshold
    /// fraction, and transient-retry cap.
    pub fn new(validators: ValidatorSet, threshold_num: u64, threshold_den: u64, max_retries: u64) -> (r:
        Registry)
        requires
            validators.wf(),
            threshold_den > 0,
        ensures
            r.wf(),
            r.records().len() == 0,
            r.validator_set() == validators,
            r.quorum_num() == threshold_num,
            r.quorum_den() == threshold_den,
            r.height_cursor() == 0,
            r.next_no() == 0,
            r.retry_cap() == max_retries,
    {
        Registry {
            corks: Vec::new(),
            validators,
            threshold_num,
            threshold_den,
            final_height: 0,
            next_seq: 0,
            max_retries,
        }
    }

    /// The current final height.
    pub fn current_height(&self) -> (r: u64)
        ensures
            r == self.height_cursor(),
    {
        self.final_height
    }

    /// The proposal-order number the next accepted proposal receives.
    pub fn next_proposal_no(&self) -> (r: u64)
        ensures
            r == self.next_no(),
    {
        self.next_seq
    }

    /// How many cork records the registry holds.
    pub fn cork_count(&self) -> (r: usize)
        ensures
            r == self.records().len(),
    {
        self.corks.len()
    }

    /// The position of the cork with identity `id`, if any.
    fn find(&self, id: &CorkIdentity) -> (r: Option<usize>)
        ensures
            r matches Some(i) ==> i < self.records().len() && self.records()[i as int].identity.key()
                == id.key(),
            r is None ==> !has_key(self.records(), id.key()),
    {
        let n = self.corks.len();
        let mut i: usize = 0;
        while i < n
            invariant
                n == self.records().len(),
                i <= n,
                forall|j: int| 0 <= j < i ==> self.records()[j].identity.key() != id.key(),
            decreases n - i,
        {
            if self.corks[i].identity.same_identity(id) {
                return Some(i);
            }
            i = i + 1;
        }
        None
    }

    /// The recorded cork with identity `id`, for inspection.
    pub fn get(&self, id: &CorkIdentity) -> (r: Option<&Cork>)
        requires
            self.wf(),
        ensures
            r matches Some(c) ==> has_key(self.records(), id.key()) && *c == self.records()[
                index_of_key(self.records(), id.key())
            ] && c.identity.key() == id.key(),
            r is None <==> !has_key(self.records(), id.key()),
    {
        match self.find(id) {
            Some(i) => {
                let c = &self.corks[i];
                proof {
                    assert(has_key(self.records(), id.key()));
                    let w = index_of_key(self.records(), id.key());
                    if w != i {
                        assert(self.records()[w].identity.key() == id.key());
                    }
                }
                Some(c)
            },
            None => None,
        }
    }

    /// Records a new scheduling intent, or recognizes an existing one.
    ///
    /// A proposal whose identity is already recorded is idempotent: the
    /// existing identity is returned and nothing changes — in particular
    /// no endorsement is reset.  A fresh cork is accepted only when its
    /// trigger height lies strictly above the current final height, else
    /// the proposal is rejected as stale; it starts `Proposed`, with no
    /// endorsements and the next proposal-order number.
    pub fn propose(
        &mut self,
        contract: NormalizedAddress,
        height: u64,
        payload: EncodedPayload,
        proposer: u64,
    ) -> (r: Result<CorkIdentity, ProposeError>)
        requires
            old(self).wf(),
            old(self).next_no() < u64::MAX,
            contract.wf(),
        ensures
            final(self).wf(),
            final(self).validator_set() == old(self).validator_set(),
            final(self).quorum_num() == old(self).quorum_num(),
            final(self).quorum_den() == old(self).quorum_den(),
            final(self).height_cursor() == old(self).height_cursor(),
            final(self).retry_cap() == old(self).retry_cap(),
            r is Err <==> !has_key(
                old(self).records(),
                (contract@, height, payload_digest(payload@)),
            ) && height <= old(self).height_cursor(),
            r is Err ==> r == Result::<CorkIdentity, ProposeError>::Err(ProposeError::PastHeight)
                && final(self).records() == old(self).records() && final(self).next_no() == old(
                self,
            ).next_no(),
            r matches Ok(id) ==> id.key() == (contract@, height, payload_digest(payload@))
                && id.wf(),
            has_key(old(self).records(), (contract@, height, payload_digest(payload@)))
                ==> final(self).records() == old(self).records() && final(self).next_no() == old(
                self,
            ).next_no(),
            r is Ok && !has_key(
                old(self).records(),
                (contract@, height, payload_digest(payload@)),
            ) ==> {
                let c = final(self).records().last();
                &&& final(self).records().len() == old(self).records().len() + 1
                &&& final(self).records().drop_last() == old(self).records()
                &&& c.identity.key() == (contract@, height, payload_digest(payload@))
                &&& c.payload@ == payload@
                &&& c.proposer == proposer
                &&& c.endorsements@.len() == 0
                &&& c.state is Proposed
                &&& c.marker is Idle
                &&& c.seq_no == old(self).next_no()
                &&& c.retries == 0
                &&& final(self).next_no() == old(self).next_no() + 1
            },
    {
        let digest = payload_hash(payload.as_bytes());
        let identity = CorkIdentity { contract, height, payload_hash: digest };
        match self.find(&identity) {
            Some(i) => {
                let existing = self.corks[i].identity.duplicate();
                proof {
                    assert(has_key(self.records(), identity.key()));
                }
                Ok(existing)
            },
            None => {
                if height <= self.final_height {
                    return Err(ProposeError::PastHeight);
                }
                let ghost before = *self;
                let returned = identity.duplicate();
                let cork = Cork {
                    identity,
                    payload,
                    proposer,
                    endorsements: Vec::new(),
                    state: CorkState::Proposed,
                    marker: DispatchMarker::Idle,
                    seq_no: self.next_seq,
                    retries: 0,
                };
                self.corks.push(cork);
                self.next_seq = self.next_seq + 1;
                proof {
                    let s = self.records();
                    assert(s.drop_last() =~= before.records());
                    assert forall|a: int, b: int| 0 <= a < b < s.len() implies s[a].identity.key()
                        != s[b].identity.key() by {
                        if b == s.len() - 1 {
                            assert(!has_key(before.records(), s[b].identity.key()));
                        }
                    }
                    assert(self.states_consistent()) by {
                        let c = s.last();
                        lemma_no_quorum_without_endorsement(
                            self.validator_set()@,
                            endorser_ids(c.endorsements@),
                            self.quorum_num(),
                            self.quorum_den(),
                        );
                        assert forall|i: int|
                            0 <= i < s.len() && refreshable(#[trigger] s[i]) implies s[i].state
                            == self.cork_target_state(s[i]) by {
                            if i < s.len() - 1 {
                                assert(s[i] == before.records()[i]);
                                assert(before.states_consistent());
                            }
                        }
                    }
                }
                Ok(returned)
            },
        }
    }

    /// Rewrites the state of the cork at position `i` to what the
    /// quorum/height AND-gate assigns it under the current validator set
    /// and final height.  Nothing else changes.
    fn refresh_at(&mut self, i: usize)
        requires
            old(self).validator_set().wf(),
            i < old(self).records().len(),
        ensures
            final(self).records() == old(self).records().update(
                i as int,
                (Cork {
                    state: old(self).cork_target_state(old(self).records()[i as int]),
                    ..old(self).records()[i as int]
                }),
            ),
            final(self).validator_set() == old(self).validator_set(),
            final(self).quorum_num() == old(self).quorum_num(),
            final(self).quorum_den() == old(self).quorum_den(),
            final(self).height_cursor() == old(self).height_cursor(),
            final(self).next_no() == old(self).next_no(),
            final(self).retry_cap() == old(self).retry_cap(),
    {
        let ids = endorser_id_vec(&self.corks[i].endorsements);
        let quorum = self.validators.check_quorum(&ids, self.threshold_num, self.threshold_den);
        let reached = self.final_height >= self.corks[i].identity.height;
        let count = self.corks[i].endorsements.len();
        let st = state_for(quorum, reached, count);
        let c = &mut self.corks[i];
        c.state = st;
    }

    /// Rewrites the state of every live cork to what the AND-gate
    /// assigns it; corks in flight with the dispatcher and corks in a
    /// terminal state are left untouched.
    #[verifier::loop_isolation(false)]
    fn refresh_all(&mut self)
        requires
            old(self).base_wf(),
        ensures
            final(self).wf(),
            final(self).validator_set() == old(self).validator_set(),
            final(self).quorum_num() == old(self).quorum_num(),
            final(self).quorum_den() == old(self).quorum_den(),
            final(self).height_cursor() == old(self).height_cursor(),
            final(self).next_no() == old(self).next_no(),
            final(self).retry_cap() == old(self).retry_cap(),
            final(self).records().len() == old(self).records().len(),
            forall|j: int|
                0 <= j < old(self).records().len() ==> final(self).records()[j] == (if refreshable(
                    old(self).records()[j],
                ) {
                    (Cork {
                        state: old(self).cork_target_state(old(self).records()[j]),
                        ..old(self).records()[j]
                    })
                } else {
                    old(self).records()[j]
                }),
    {
        let n = self.corks.len();
        let mut i: usize = 0;
        while i < n
            invariant
                i <= n,
                self.records().len() == n,
                self.validator_set() == old(self).validator_set(),
                self.quorum_num() == old(self).quorum_num(),
                self.quorum_den() == old(self).quorum_den(),
                self.height_cursor() == old(self).height_cursor(),
                self.next_no() == old(self).next_no(),
                self.retry_cap() == old(self).retry_cap(),
                forall|j: int| i <= j < n ==> self.records()[j] == old(self).records()[j],
                forall|j: int|
                    0 <= j < i ==> self.records()[j] == (if refreshable(old(self).records()[j]) {
                        (Cork {
                            state: old(self).cork_target_state(old(self).records()[j]),
                            ..old(self).records()[j]
                        })
                    } else {
                        old(self).records()[j]
                    }),
            decreases n - i,
        {
            if is_refreshable(&self.corks[i]) {
                self.refresh_at(i);
            }
            i = i + 1;
        }
        proof {
            let s = self.records();
            let s0 = old(self).records();
            assert forall|j: int| 0 <= j < s.len() implies s[j].identity == s0[j].identity && s[
                j
            ].seq_no == s0[j].seq_no && s[j].marker == s0[j].marker && s[j].endorsements == s0[
                j
            ].endorsements && s[j].payload == s0[j].payload && cork_wf(s[j]) by {
                assert(cork_wf(s0[j]));
            }
            assert(self.base_wf());
            assert forall|j: int|
                0 <= j < s.len() && refreshable(#[trigger] s[j]) implies s[j].state
                == self.cork_target_state(s[j]) by {
                assert(refreshable(s0[j]));
            }
        }
    }

    /// Records one validator's endorsement of the cork with identity
    /// `id` and re-evaluates the cork's state.
    ///
    /// The endorsement is rejected when no such cork exists, when the
    /// cork is terminal or in flight, when the validator is not in the
    /// active set, or when the validator endorsed before with a
    /// different proof token.  Endorsing again with the same proof token
    /// is an idempotent no-op.  On every rejection the registry is
    /// unchanged.
    #[verifier::loop_isolation(false)]
    pub fn endorse(&mut self, id: &CorkIdentity, validator: u64, proof_token: u64) -> (r: Result<
        EndorseOutcome,
        EndorseError,
    >)
        requires
            old(self).wf(),
        ensures
            final(self).wf(),
            final(self).validator_set() == old(self).validator_set(),
            final(self).quorum_num() == old(self).quorum_num(),
            final(self).quorum_den() == old(self).quorum_den(),
            final(self).height_cursor() == old(self).height_cursor(),
            final(self).next_no() == old(self).next_no(),
            final(self).retry_cap() == old(self).retry_cap(),
            r == Result::<EndorseOutcome, EndorseError>::Err(EndorseError::UnknownCork) <==> !has_key(
                old(self).records(),
                id.key(),
            ),
            r is Err ==> final(self).records() == old(self).records(),
            has_key(old(self).records(), id.key()) ==> {
                let i = index_of_key(old(self).records(), id.key());
                let c = old(self).records()[i];
                &&& (r == Result::<EndorseOutcome, EndorseError>::Err(EndorseError::CorkClosed)
                    <==> !refreshable(c))
                &&& (r == Result::<EndorseOutcome, EndorseError>::Err(EndorseError::NotEligible)
                    <==> refreshable(c) && !contains_id(old(self).validator_set()@, validator))
                &&& (r == Result::<EndorseOutcome, EndorseError>::Err(EndorseError::ProofConflict)
                    <==> refreshable(c) && contains_id(old(self).validator_set()@, validator) && (
                exists|k: int|
                    0 <= k < c.endorsements@.len() && c.endorsements@[k].validator == validator
                        && c.endorsements@[k].proof_token != proof_token))
                &&& (r == Result::<EndorseOutcome, EndorseError>::Ok(EndorseOutcome::AlreadyEndorsed)
                    <==> refreshable(c) && contains_id(old(self).validator_set()@, validator) && (
                exists|k: int|
                    0 <= k < c.endorsements@.len() && c.endorsements@[k].validator == validator
                        && c.endorsements@[k].proof_token == proof_token))
                &&& (r == Result::<EndorseOutcome, EndorseError>::Ok(EndorseOutcome::Recorded) <==> refreshable(
                    c,
                ) && contains_id(old(self).validator_set()@, validator) && !endorser_ids(
                    c.endorsements@,
                ).contains(validator))
                &&& (r == Result::<EndorseOutcome, EndorseError>::Ok(EndorseOutcome::AlreadyEndorsed)
                    ==> final(self).records() == old(self).records())
                &&& (r == Result::<EndorseOutcome, EndorseError>::Ok(EndorseOutcome::Recorded)
                    ==> {
                    let nc = final(self).records()[i];
                    &&& final(self).records().len() == old(self).records().len()
                    &&& (forall|j: int|
                        0 <= j < old(self).records().len() && j != i ==> final(self).records()[j]
                            == old(self).records()[j])
                    &&& nc.endorsements@ == c.endorsements@.push(
                        Endorsement { validator, proof_token },
                    )
                    &&& nc.state == computed_state(
                        quorum_met(
                            old(self).validator_set()@,
                            endorser_ids(nc.endorsements@),
                            old(self).quorum_num(),
                            old(self).quorum_den(),
                        ),
                        old(self).height_reached(c),
                        nc.endorsements@.len(),
                    )
                    &&& nc.identity == c.identity
                    &&& nc.payload == c.payload
                    &&& nc.proposer == c.proposer
                    &&& nc.marker == c.marker
                    &&& nc.seq_no == c.seq_no
                    &&& nc.retries == c.retries
                })
            },
    {
        let found = self.find(id);
        match found {
            None => Err(EndorseError::UnknownCork),
            Some(i) => {
                proof {
                    assert(has_key(self.records(), id.key()));
                    let w = index_of_key(self.records(), id.key());
                    assert(self.records()[w].identity.key() == id.key());
                    assert(w == i);
                }
                if !is_refreshable(&self.corks[i]) {
                    return Err(EndorseError::CorkClosed);
                }
                if !self.validators.is_member(validator) {
                    return Err(EndorseError::NotEligible);
                }
                let n = self.corks[i].endorsements.len();
                let mut k: usize = 0;
                while k < n
                    invariant
                        i < self.records().len(),
                        n == self.records()[i as int].endorsements@.len(),
                        k <= n,
                        forall|j: int|
                            0 <= j < k ==> self.records()[i as int].endorsements@[j].validator
                                != validator,
                    decreases n - k,
                {
                    let e = self.corks[i].endorsements[k];
                    if e.validator == validator {
                        proof {
                            let c0 = self.records()[i as int];
                            let ids = endorser_ids(c0.endorsements@);
                            assert(cork_wf(c0));
                            assert(ids[k as int] == c0.endorsements@[k as int].validator);
                            assert forall|j: int|
                                0 <= j < c0.endorsements@.len() && j != k implies c0.endorsements@[
                                j
                            ].validator != validator by {
                                assert(ids[j] == c0.endorsements@[j].validator);
                                assert(distinct_u64(ids));
                            }
                            assert(ids.contains(validator));
                        }
                        if e.proof_token == proof_token {
                            return Ok(EndorseOutcome::AlreadyEndorsed);
                        } else {
                            return Err(EndorseError::ProofConflict);
                        }
                    }
                    k = k + 1;
                }
                proof {
                    let ids = endorser_ids(self.records()[i as int].endorsements@);
                    assert forall|j: int| 0 <= j < ids.len() implies ids[j] != validator by {
                        assert(ids[j] == self.records()[i as int].endorsements@[j].validator);
                    }
                    assert(!ids.contains(validator));
                }
                let ghost before = *self;
                let c = &mut self.corks[i];
                c.endorsements.push(Endorsement { validator, proof_token });
                proof {
                    let pushed = self.records()[i as int].endorsements@;
                    let prior = before.records()[i as int].endorsements@;
                    assert(pushed == prior.push(Endorsement { validator, proof_token }));
                    assert(distinct_u64(endorser_ids(pushed))) by {
                        let ids = endorser_ids(pushed);
                        let prior_ids = endorser_ids(prior);
                        assert forall|a: int, b: int| 0 <= a < b < ids.len() implies ids[a] != ids[
                            b
                        ] by {
                            assert(ids[a] == pushed[a].validator);
                            assert(ids[b] == pushed[b].validator);
                            if b == ids.len() - 1 {
                                assert(prior_ids[a] == prior[a].validator);
                                assert(!prior_ids.contains(validator));
                            } else {
                                assert(prior_ids[a] == prior[a].validator);
                                assert(prior_ids[b] == prior[b].validator);
                                assert(distinct_u64(prior_ids));
                            }
                        }
                    }
                    assert(self.validator_set().wf());
                }
                self.refresh_at(i);
                proof {
                    let s = self.records();
                    let s0 = old(self).records();
                    assert(s.len() == s0.len());
                    assert forall|j: int| 0 <= j < s.len() && j != i implies s[j] == s0[j] by {}
                    assert(cork_wf(s[i as int]));
                    assert(self.base_wf());
                    assert forall|j: int|
                        0 <= j < s.len() && refreshable(#[trigger] s[j]) implies s[j].state
                        == self.cork_target_state(s[j]) by {
                        if j != i {
                            assert(refreshable(s0[j]));
                            assert(s0[j].state == old(self).cork_target_state(s0[j]));
                        }
                    }
                }
                Ok(EndorseOutcome::Recorded)
            },
        }
    }

    /// Replaces the active validator set and re-evaluates every live
    /// cork against it.
    ///
    /// Quorum is never cached: weight gained or lost through validator
    /// churn immediately moves corks across the `Ready`/`Endorsed`
    /// boundary, in either direction.
    pub fn set_validators(&mut self, validators: ValidatorSet)
        requires
            old(self).wf(),
            validators.wf(),
        ensures
            final(self).wf(),
            final(self).validator_set() == validators,
            final(self).quorum_num() == old(self).quorum_num(),
            final(self).quorum_den() == old(self).quorum_den(),
            final(self).height_cursor() == old(self).height_cursor(),
            final(self).next_no() == old(self).next_no(),
            final(self).retry_cap() == old(self).retry_cap(),
            final(self).records().len() == old(self).records().len(),
            forall|j: int|
                0 <= j < old(self).records().len() ==> final(self).records()[j] == (if refreshable(
                    old(self).records()[j],
                ) {
                    (Cork {
                        state: final(self).cork_target_state(old(self).records()[j]),
                        ..old(self).records()[j]
                    })
                } else {
                    old(self).records()[j]
                }),
    {
        self.validators = validators;
        self.refresh_all();
    }

    /// Feeds one chain-state event: a height observation, final or
    /// provisional, or a reorganization report.
    ///
    /// The final height advances monotonically on final observations and
    /// retreats only when `reorg_from` reports a rollback, in which case
    /// `height` is the new final height.  Every live cork is then
    /// re-evaluated: a cork whose trigger height the retreat uncovered
    /// falls back from `Executable` to `Ready`, `Endorsed` or
    /// `Proposed`; a cork already handed to the dispatcher, or already
    /// terminal, is not touched.  Events must be fed in the order
    /// received.
    pub fn on_height_event(&mut self, height: u64, is_final: bool, reorg_from: Option<u64>)
        requires
            old(self).wf(),
        ensures
            final(self).wf(),
            final(self).validator_set() == old(self).validator_set(),
            final(self).quorum_num() == old(self).quorum_num(),
            final(self).quorum_den() == old(self).quorum_den(),
            final(self).next_no() == old(self).next_no(),
            final(self).retry_cap() == old(self).retry_cap(),
            final(self).height_cursor() == (if reorg_from is Some {
                height
            } else if is_final && height > old(self).height_cursor() {
                height
            } else {
                old(self).height_cursor()
            }),
            final(self).records().len() == old(self).records().len(),
            forall|j: int|
                0 <= j < old(self).records().len() ==> final(self).records()[j] == (if refreshable(
                    old(self).records()[j],
                ) {
                    (Cork {
                        state: final(self).cork_target_state(old(self).records()[j]),
                        ..old(self).records()[j]
                    })
                } else {
                    old(self).records()[j]
                }),
    {
        match reorg_from {
            Some(_) => {
                self.final_height = height;
            },
            None => {
                if is_final && height > self.final_height {
                    self.final_height = height;
                }
            },
        }
        self.refresh_all();
    }

    /// Picks the cork the dispatcher must take next: among all
    /// `Executable`, undispatched corks, the one with the lowest trigger
    /// height, and of those the earliest proposed.  Every process that
    /// observes the same height stream converges on the same order.
    #[verifier::loop_isolation(false)]
    pub fn next_executable(&self) -> (r: Option<CorkIdentity>)
        requires
            self.wf(),
        ensures
            r is None <==> (forall|i: int|
                0 <= i < self.records().len() ==> !dispatchable(#[trigger] self.records()[i])),
            r matches Some(id) ==> id.wf() && (exists|i: int|
                {
                    &&& 0 <= i < self.records().len()
                    &&& dispatchable(#[trigger] self.records()[i])
                    &&& self.records()[i].identity.key() == id.key()
                    &&& (forall|j: int|
                        0 <= j < self.records().len() && dispatchable(
                            #[trigger] self.records()[j],
                        ) ==> dispatch_precedes(self.records()[i], self.records()[j]))
                }),
    {
        let n = self.corks.len();
        let mut best: usize = 0;
        let mut found = false;
        let mut i: usize = 0;
        while i < n
            invariant
                i <= n,
                found ==> best < i && dispatchable(self.records()[best as int]) && (forall|j: int|
                    0 <= j < i && dispatchable(#[trigger] self.records()[j]) ==> dispatch_precedes(
                        self.records()[best as int],
                        self.records()[j],
                    )),
                !found ==> (forall|j: int|
                    0 <= j < i ==> !dispatchable(#[trigger] self.records()[j])),
            decreases n - i,
        {
            if is_dispatchable(&self.corks[i]) {
                if !found {
                    best = i;
                    found = true;
                } else {
                    let ch = self.corks[i].identity.height;
                    let bh = self.corks[best].identity.height;
                    if ch < bh || (ch == bh && self.corks[i].seq_no < self.corks[best].seq_no) {
                        best = i;
                    }
                }
            }
            i = i + 1;
        }
        if found {
            Some(self.corks[best].identity.duplicate())
        } else {
            None
        }
    }

    /// The identities of every cork standing in state `state`, in
    /// proposal order.
    #[verifier::loop_isolation(false)]
    pub fn list_state(&self, state: CorkState) -> (r: Vec<CorkIdentity>)
        requires
            self.wf(),
        ensures
            r@.map_values(|id: CorkIdentity| id.key()) == keys_with_state(self.records(), state),
    {
        let n = self.corks.len();
        let mut out: Vec<CorkIdentity> = Vec::new();
        let mut i: usize = 0;
        while i < n
            invariant
                i <= n,
                out@.map_values(|id: CorkIdentity| id.key()) == keys_with_state(
                    self.records().take(i as int),
                    state,
                ),
            decreases n - i,
        {
            proof {
                assert(self.records().take(i + 1).drop_last() =~= self.records().take(i as int));
            }
            if self.corks[i].state == state {
                out.push(self.corks[i].identity.duplicate());
            }
            proof {
                assert(out@.map_values(|id: CorkIdentity| id.key()) =~= keys_with_state(
                    self.records().take(i + 1),
                    state,
                ));
            }
            i = i + 1;
        }
        proof {
            assert(self.records().take(n as int) =~= self.records());
        }
        out
    }

    /// Marks the cork in flight and hands back the payload to submit.
    ///
    /// This is the durable at-most-once guard: the marker is written
    /// before any submission leaves, and while it stands — including
    /// across a crash and restart — every further `begin_dispatch` for
    /// the identity is refused until an outcome is recorded through
    /// [`Registry::record_outcome`].
    pub fn begin_dispatch(&mut self, id: &CorkIdentity) -> (r: Result<EncodedPayload, DispatchError>)
        requires
            old(self).wf(),
        ensures
            final(self).wf(),
            final(self).validator_set() == old(self).validator_set(),
            final(self).quorum_num() == old(self).quorum_num(),
            final(self).quorum_den() == old(self).quorum_den(),
            final(self).height_cursor() == old(self).height_cursor(),
            final(self).next_no() == old(self).next_no(),
            final(self).retry_cap() == old(self).retry_cap(),
            r == Result::<EncodedPayload, DispatchError>::Err(DispatchError::UnknownCork) <==> !has_key(
                old(self).records(),
                id.key(),
            ),
            r is Err ==> final(self).records() == old(self).records(),
            has_key(old(self).records(), id.key()) ==> {
                let i = index_of_key(old(self).records(), id.key());
                let c = old(self).records()[i];
                &&& (r == Result::<EncodedPayload, DispatchError>::Err(
                    DispatchError::AlreadyInFlight,
                ) <==> c.marker is InFlight)
                &&& (r == Result::<EncodedPayload, DispatchError>::Err(DispatchError::NotExecutable)
                    <==> c.marker is Idle && !(c.state is Executable))
                &&& (r is Ok <==> dispatchable(c))
                &&& (r matches Ok(p) ==> p@ == c.payload@ && final(self).records() == old(
                    self,
                ).records().update(i, (Cork { marker: DispatchMarker::InFlight, ..c })))
            },
    {
        let found = self.find(id);
        match found {
            None => Err(DispatchError::UnknownCork),
            Some(i) => {
                proof {
                    assert(has_key(self.records(), id.key()));
                    let w = index_of_key(self.records(), id.key());
                    assert(self.records()[w].identity.key() == id.key());
                    assert(w == i);
                }
                match self.corks[i].marker {
                    DispatchMarker::InFlight => Err(DispatchError::AlreadyInFlight),
                    DispatchMarker::Idle => {
                        let executable = match self.corks[i].state {
                            CorkState::Executable => true,
                            _ => false,
                        };
                        if !executable {
                            return Err(DispatchError::NotExecutable);
                        }
                        let payload = self.corks[i].payload.duplicate();
                        let ghost before = *self;
                        let c = &mut self.corks[i];
                        c.marker = DispatchMarker::InFlight;
                        proof {
                            let s = self.records();
                            let s0 = before.records();
                            assert(cork_wf(s[i as int]));
                            assert(self.base_wf());
                            assert forall|j: int|
                                0 <= j < s.len() && refreshable(#[trigger] s[j]) implies s[j].state
                                == self.cork_target_state(s[j]) by {
                                assert(s[j] == s0[j]);
                                assert(refreshable(s0[j]));
                            }
                        }
                        Ok(payload)
                    },
                }
            },
        }
    }

    /// Records the terminal or transient outcome of a submission that
    /// [`Registry::begin_dispatch`] sent out, and returns the cork's new
    /// state.
    ///
    /// Success makes the cork `Executed`, permanently.  A permanent
    /// failure, or a transient failure past the retry cap, makes it
    /// `DispatchFailed` for operator attention.  A transient failure
    /// under the cap clears the in-flight marker, counts the retry, and
    /// re-evaluates the cork, so a height retreat during the attempt is
    /// honored.  On crash recovery this is also the entry point: consult
    /// the execution chain first and feed what it reports here.
    pub fn record_outcome(&mut self, id: &CorkIdentity, outcome: DispatchOutcome) -> (r: Result<
        CorkState,
        DispatchError,
    >)
        requires
            old(self).wf(),
        ensures
            final(self).wf(),
            final(self).validator_set() == old(self).validator_set(),
            final(self).quorum_num() == old(self).quorum_num(),
            final(self).quorum_den() == old(self).quorum_den(),
            final(self).height_cursor() == old(self).height_cursor(),
            final(self).next_no() == old(self).next_no(),
            final(self).retry_cap() == old(self).retry_cap(),
            r == Result::<CorkState, DispatchError>::Err(DispatchError::UnknownCork) <==> !has_key(
                old(self).records(),
                id.key(),
            ),
            r is Err ==> final(self).records() == old(self).records(),
            has_key(old(self).records(), id.key()) ==> {
                let i = index_of_key(old(self).records(), id.key());
                let c = old(self).records()[i];
                &&& (r == Result::<CorkState, DispatchError>::Err(DispatchError::NotInFlight)
                    <==> c.marker is Idle)
                &&& (r is Ok <==> c.marker is InFlight)
                &&& (r is Ok && outcome is Succeeded ==> r == Result::<
                    CorkState,
                    DispatchError,
                >::Ok(CorkState::Executed) && final(self).records() == old(self).records().update(
                    i,
                    (Cork { state: CorkState::Executed, marker: DispatchMarker::Idle, ..c }),
                ))
                &&& (r is Ok && outcome is PermanentFailure ==> r == Result::<
                    CorkState,
                    DispatchError,
                >::Ok(CorkState::DispatchFailed) && final(self).records() == old(
                    self,
                ).records().update(
                    i,
                    (Cork { state: CorkState::DispatchFailed, marker: DispatchMarker::Idle, ..c }),
                ))
                &&& (r is Ok && outcome is TransientFailure && c.retries >= old(self).retry_cap()
                    ==> r == Result::<CorkState, DispatchError>::Ok(CorkState::DispatchFailed)
                    && final(self).records() == old(self).records().update(
                    i,
                    (Cork { state: CorkState::DispatchFailed, marker: DispatchMarker::Idle, ..c }),
                ))
                &&& (r is Ok && outcome is TransientFailure && c.retries < old(self).retry_cap()
                    ==> r == Result::<CorkState, DispatchError>::Ok(
                    old(self).cork_target_state(c),
                ) && final(self).records() == old(self).records().update(
                    i,
                    (Cork {
                        state: old(self).cork_target_state(c),
                        marker: DispatchMarker::Idle,
                        retries: (c.retries + 1) as u64,
                        ..c
                    }),
                ))
            },
    {
        let found = self.find(id);
        match found {
            None => Err(DispatchError::UnknownCork),
            Some(i) => {
                proof {
                    assert(has_key(self.records(), id.key()));
                    let w = index_of_key(self.records(), id.key());
                    assert(self.records()[w].identity.key() == id.key());
                    assert(w == i);
                }
                match self.corks[i].marker {
                    DispatchMarker::Idle => Err(DispatchError::NotInFlight),
                    DispatchMarker::InFlight => {
                        let ghost before = *self;
                        match outcome {
                            DispatchOutcome::Succeeded => {
                                let c = &mut self.corks[i];
                                c.state = CorkState::Executed;
                                c.marker = DispatchMarker::Idle;
                                proof {
                                    self.lemma_surgical_update(before, i as int);
                                }
                                Ok(CorkState::Executed)
                            },
                            DispatchOutcome::PermanentFailure => {
                                let c = &mut self.corks[i];
                                c.state = CorkState::DispatchFailed;
                                c.marker = DispatchMarker::Idle;
                                proof {
                                    self.lemma_surgical_update(before, i as int);
                                }
                                Ok(CorkState::DispatchFailed)
                            },
                            DispatchOutcome::TransientFailure => {
                                let retries = self.corks[i].retries;
                                if retries >= self.max_retries {
                                    let c = &mut self.corks[i];
                                    c.state = CorkState::DispatchFailed;
                                    c.marker = DispatchMarker::Idle;
                                    proof {
                                        self.lemma_surgical_update(before, i as int);
                                    }
                                    Ok(CorkState::DispatchFailed)
                                } else {
                                    {
                                        let c = &mut self.corks[i];
                                        c.retries = retries + 1;
                                        c.marker = DispatchMarker::Idle;
                                    }
                                    self.refresh_at(i);
                                    proof {
                                        self.lemma_surgical_update(before, i as int);
                                    }
                                    let st = match self.corks[i].state {
                                        CorkState::Proposed => CorkState::Proposed,
                                        CorkState::Endorsed => CorkState::Endorsed,
                                        CorkState::Ready => CorkState::Ready,
                                        CorkState::Executable => CorkState::Executable,
                                        CorkState::Executed => CorkState::Executed,
                                        CorkState::Invalidated => CorkState::Invalidated,
                                        CorkState::DispatchFailed => CorkState::DispatchFailed,
                                    };
                                    Ok(st)
                                }
                            },
                        }
                    },
                }
            },
        }
    }

    /// Cancels the cork before it executes.
    ///
    /// Allowed at any point up to dispatch; once a submission is in
    /// flight or the cork ended `Executed` or `DispatchFailed`, the
    /// cancellation comes too late and is refused.  Cancelling an
    /// already cancelled cork is a no-op.
    pub fn invalidate(&mut self, id: &CorkIdentity) -> (r: Result<(), InvalidateError>)
        requires
            old(self).wf(),
        ensures
            final(self).wf(),
            final(self).validator_set() == old(self).validator_set(),
            final(self).quorum_num() == old(self).quorum_num(),
            final(self).quorum_den() == old(self).quorum_den(),
            final(self).height_cursor() == old(self).height_cursor(),
            final(self).next_no() == old(self).next_no(),
            final(self).retry_cap() == old(self).retry_cap(),
            r == Result::<(), InvalidateError>::Err(InvalidateError::UnknownCork) <==> !has_key(
                old(self).records(),
                id.key(),
            ),
            r is Err ==> final(self).records() == old(self).records(),
            has_key(old(self).records(), id.key()) ==> {
                let i = index_of_key(old(self).records(), id.key());
                let c = old(self).records()[i];
                &&& (r == Result::<(), InvalidateError>::Err(InvalidateError::TooLate) <==> (
                c.marker is InFlight || c.state is Executed || c.state is DispatchFailed))
                &&& (r is Ok <==> c.marker is Idle && !(c.state is Executed) && !(c.state
                    is DispatchFailed))
                &&& (r is Ok ==> final(self).records() == old(self).records().update(
                    i,
                    (Cork { state: CorkState::Invalidated, ..c }),
                ))
            },
    {
        let found = self.find(id);
        match found {
            None => Err(InvalidateError::UnknownCork),
            Some(i) => {
                proof {
                    assert(has_key(self.records(), id.key()));
                    let w = index_of_key(self.records(), id.key());
                    assert(self.records()[w].identity.key() == id.key());
                    assert(w == i);
                }
                let too_late = match self.corks[i].marker {
                    DispatchMarker::InFlight => true,
                    DispatchMarker::Idle => match self.corks[i].state {
                        CorkState::Executed => true,
                        CorkState::DispatchFailed => true,
                        _ => false,
                    },
                };
                if too_late {
                    return Err(InvalidateError::TooLate);
                }
                let ghost before = *self;
                let c = &mut self.corks[i];
                c.state = CorkState::Invalidated;
                proof {
                    self.lemma_surgical_update(before, i as int);
                }
                Ok(())
            },
        }
    }

    /// A live, undispatched cork stands `Executable` exactly when its
    /// accumulated endorsement weight strictly exceeds the quorum
    /// threshold fraction of the active validator weight AND the final
    /// height has reached its trigger height — in whichever order the
    /// two were satisfied.
    pub proof fn lemma_executable_iff_quorum_and_height(self, i: int)
        requires
            self.wf(),
            0 <= i < self.records().len(),
            refreshable(self.records()[i]),
        ensures
            self.records()[i].state is Executable <==> (self.cork_quorum(self.records()[i])
                && self.height_reached(self.records()[i])),
    {
    }

    /// After a change to one cork that left it either unrefreshable or
    /// consistent with its target state, the whole registry invariant
    /// holds again, provided identities, proposal numbers and the
    /// in-flight rule were preserved.
    proof fn lemma_surgical_update(self, before: Registry, i: int)
        requires
            before.wf(),
            0 <= i < before.records().len(),
            self.records().len() == before.records().len(),
            forall|j: int|
                0 <= j < before.records().len() && j != i ==> self.records()[j]
                    == before.records()[j],
            self.validator_set() == before.validator_set(),
            self.quorum_num() == before.quorum_num(),
            self.quorum_den() == before.quorum_den(),
            self.height_cursor() == before.height_cursor(),
            self.next_no() == before.next_no(),
            cork_wf(self.records()[i]),
            self.records()[i].identity == before.records()[i].identity,
            self.records()[i].seq_no == before.records()[i].seq_no,
            self.records()[i].marker is InFlight ==> self.records()[i].state is Executable,
            refreshable(self.records()[i]) ==> self.records()[i].state == self.cork_target_state(
                self.records()[i],
            ),
        ensures
            self.wf(),
    {
        let s = self.records();
        let s0 = before.records();
        assert(self.base_wf());
        assert forall|j: int| 0 <= j < s.len() && refreshable(#[trigger] s[j]) implies s[j].state
            == self.cork_target_state(s[j]) by {
            if j != i {
                assert(s[j] == s0[j]);
                assert(refreshable(s0[j]));
            }
        }
    }
}

} // verus!
