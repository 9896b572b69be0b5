//! Cork records: identity, endorsements, and lifecycle state.
//!
//! A cork is one scheduling intent: run an encoded call against a target
//! contract once the coordinating chain has finally reached a trigger
//! height and a quorum of validators has endorsed it.  Its identity is
//! the tuple of target contract, trigger height, and payload digest; two
//! proposals with the same identity are the same cork.

use vstd::prelude::*;

use crate::address::NormalizedAddress;
use crate::encode::EncodedPayload;
use crate::hash::payload_digest;

verus! {

/// The lifecycle state of a cork.
///
/// `Proposed`, `Endorsed`, `Ready` and `Executable` are live states the
/// scheduler recomputes from endorsements and height; `Executed`,
/// `Invalidated` and `DispatchFailed` are terminal.
#[derive(Clone, Copy, Debug, PartialEq, Eq, Structural)]
pub enum CorkState {
    /// Recorded, with no endorsement yet.
    Proposed,
    /// Endorsed, but short of quorum.
    Endorsed,
    /// Quorum met while the final height is still below the trigger.
    Ready,
    /// Quorum met and trigger height finally reached.
    Executable,
    /// Submitted and confirmed; never runs again.
    Executed,
    /// Cancelled by an operator before dispatch.
    Invalidated,
    /// Dispatch failed permanently or exhausted its retries.
    DispatchFailed,
}

/// The durable dispatch guard of a cork.
#[derive(Clone, Copy, Debug, PartialEq, Eq, Structural)]
pub enum DispatchMarker {
    /// No submission is under way.
    Idle,
    /// A submission left for the execution chain and no outcome has been
    /// recorded yet; further submissions are refused until one is.
    InFlight,
}

/// One validator's authenticated approval of a cork identity.
#[derive(Clone, Copy, Debug, PartialEq, Eq, Structural)]
pub struct Endorsement {
    /// The endorsing validator's identity.
    pub validator: u64,
    /// The opaque token proving the validator authorized the endorsement.
    pub proof_token: u64,
}

/// The immutable identity of one scheduling intent: target contract,
/// trigger height, and payload digest.
#[derive(Clone, Debug)]
pub struct CorkIdentity {
    pub contract: NormalizedAddress,
    pub height: u64,
    pub payload_hash: u64,
}

impl CorkIdentity {
    /// The identity as a plain triple; two corks are the same intent
    /// exactly when their keys are equal.
    pub open spec fn key(&self) -> (Seq<u8>, u64, u64) {
        (self.contract@, self.height, self.payload_hash)
    }

    /// The contract address holds the fixed width of bytes.
    pub open spec fn wf(&self) -> bool {
        self.contract.wf()
    }

    /// Whether two identities name the same scheduling intent.
    pub fn same_identity(&self, other: &CorkIdentity) -> (r: bool)
        ensures
            r == (self.key() == other.key()),
    {
        self.height == other.height && self.payload_hash == other.payload_hash
            && self.contract.same_address(&other.contract)
    }

    /// A fresh identity naming the same scheduling intent.
    pub fn duplicate(&self) -> (r: CorkIdentity)
        ensures
            r.key() == self.key(),
            r.wf() == self.wf(),
    {
        CorkIdentity {
            contract: self.contract.duplicate(),
            height: self.height,
            payload_hash: self.payload_hash,
        }
    }
}

/// The mutable record of one cork.
#[derive(Clone, Debug)]
pub struct Cork {
    /// What is to run, where, and from which height.
    pub identity: CorkIdentity,
    /// The full encoded payload, bound to the identity for the cork's
    /// lifetime.
    pub payload: EncodedPayload,
    /// The validator that first proposed the cork.
    pub proposer: u64,
    /// Every endorsement recorded so far, one per validator.
    pub endorsements: Vec<Endorsement>,
    /// The lifecycle state.
    pub state: CorkState,
    /// The durable dispatch guard.
    pub marker: DispatchMarker,
    /// Proposal-time order, used to break ties between corks that share
    /// a trigger height.
    pub seq_no: u64,
    /// How many transient dispatch failures have been retried.
    pub retries: u64,
}

/// The validator identities behind a list of endorsements.
pub open spec fn endorser_ids(es: Seq<Endorsement>) -> Seq<u64> {
    es.map_values(|e: Endorsement| e.validator)
}

/// Whether no value repeats in `s`.
pub open spec fn distinct_u64(s: Seq<u64>) -> bool {
    forall|i: int, j: int| 0 <= i < j < s.len() ==> s[i] != s[j]
}

/// A cork record is well formed: its identity is well formed, its digest
/// binds the payload, and no validator endorsed twice.
pub open spec fn cork_wf(c: Cork) -> bool {
    &&& c.identity.wf()
    &&& c.identity.payload_hash == payload_digest(c.payload@)
    &&& distinct_u64(endorser_ids(c.endorsements@))
}

/// Whether the scheduler may rewrite the cork's state: the cork is not
/// in flight with the dispatcher and not in a terminal state.
pub open spec fn refreshable(c: Cork) -> bool {
    &&& c.marker is Idle
    &&& (c.state is Proposed || c.state is Endorsed || c.state is Ready || c.state is Executable)
}

/// Whether the dispatcher may pick the cork up.
pub open spec fn dispatchable(c: Cork) -> bool {
    c.state is Executable && c.marker is Idle
}

/// The live state a cork belongs in, as a two-input AND-gate over quorum
/// and height: both satisfied makes it `Executable`, quorum alone makes
/// it `Ready`, any endorsement alone makes it `Endorsed`, else it stays
/// `Proposed`.  The order in which the two inputs were satisfied does
/// not matter.
pub open spec fn computed_state(quorum: bool, height_reached: bool, endorsements: nat) -> CorkState {
    if quorum && height_reached {
        CorkState::Executable
    } else if quorum {
        CorkState::Ready
    } else if endorsements > 0 {
        CorkState::Endorsed
    } else {
        CorkState::Proposed
    }
}

/// Dispatch order: trigger height first, then proposal order.
pub open spec fn dispatch_precedes(a: Cork, b: Cork) -> bool {
    a.identity.height < b.identity.height || (a.identity.height == b.identity.height && a.seq_no
        <= b.seq_no)
}

/// While a submission is in flight — including after a crash, since the
/// marker is durable — the cork is not dispatchable: no second
/// submission can be started until an outcome is recorded.
pub proof fn lemma_in_flight_never_dispatchable(c: Cork)
    requires
        c.marker is InFlight,
    ensures
        !dispatchable(c),
{
}

/// Without the trigger height finally reached no cork stands
/// `Executable`, whatever its endorsements: a reorganization that drops
/// the final height below the trigger always pulls an undispatched cork
/// back to `Ready`, `Endorsed` or `Proposed`.
pub proof fn lemma_not_executable_below_trigger(quorum: bool, endorsements: nat)
    ensures
        computed_state(quorum, false, endorsements) != CorkState::Executable,
        quorum ==> computed_state(quorum, false, endorsements) == CorkState::Ready,
{
}

/// The live state recomputation is a pure AND-gate: it lands on
/// `Executable` exactly when quorum and height hold together.
pub proof fn lemma_executable_iff_gate(quorum: bool, height_reached: bool, endorsements: nat)
    ensures
        computed_state(quorum, height_reached, endorsements) == CorkState::Executable <==> (quorum
            && height_reached),
{
}

/// Computes the live state from the two gate inputs and the endorsement
/// count.
pub fn state_for(quorum: bool, height_reached: bool, endorsements: usize) -> (s: CorkState)
    ensures
        s == computed_state(quorum, height_reached, endorsements as nat),
{
    if quorum && height_reached {
        CorkState::Executable
    } else if quorum {
        CorkState::Ready
    } else if endorsements > 0 {
        CorkState::Endorsed
    } else {
        CorkState::Proposed
    }
}

/// Whether the scheduler may rewrite the cork's state.
pub fn is_refreshable(c: &Cork) -> (r: bool)
    ensures
        r == refreshable(*c),
{
    match c.marker {
        DispatchMarker::Idle => match c.state {
            CorkState::Proposed => true,
            CorkState::Endorsed => true,
            CorkState::Ready => true,
            CorkState::Executable => true,
            _ => false,
        },
        DispatchMarker::InFlight => false,
    }
}

/// Whether the dispatcher may pick the cork up.
pub fn is_dispatchable(c: &Cork) -> (r: bool)
    ensures
        r == dispatchable(*c),
{
    match c.marker {
        DispatchMarker::Idle => match c.state {
            CorkState::Executable => true,
            _ => false,
        },
        DispatchMarker::InFlight => false,
    }
}

/// The validator identities of `es`, as a vector.
pub fn endorser_id_vec(es: &Vec<Endorsement>) -> (r: Vec<u64>)
    ensures
        r@ == endorser_ids(es@),
{
    let n = es.len();
    let mut ids: Vec<u64> = Vec::new();
    let mut i: usize = 0;
    while i < n
        invariant
            n == es@.len(),
            i <= n,
            ids@ == endorser_ids(es@.take(i as int)),
        decreases n - i,
    {
        ids.push(es[i].validator);
        proof {
            assert(ids@ =~= endorser_ids(es@.take(i + 1)));
        }
        i = i + 1;
    }
    proof {
        assert(es@.take(n as int) =~= es@);
    }
    ids
}

} // verus!
