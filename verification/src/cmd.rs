//! Operator command records and their validation logic.
//!
//! Each record carries the plain arguments an operator supplies; the
//! methods here do everything that can be decided without touching a
//! chain: validate the target contract identifier, normalize addresses,
//! and encode the call payload.  What remains for the process around the
//! library is only to submit the resulting plan.

use vstd::prelude::*;

use crate::address::AddressError;
use crate::address::NormalizedAddress;
use crate::address::decoded_address;
use crate::address::left_padded;
use crate::address::normalize;
use crate::address::parse_contract_id;
use crate::address::valid_contract_id;
use crate::encode::CallVariant;
use crate::encode::EncodedPayload;
use crate::encode::encode;
use crate::encode::encoded;

verus! {

/// Why a command could not be turned into a scheduling plan.
#[derive(Clone, Copy, Debug, PartialEq, Eq, Structural)]
pub enum PlanError {
    /// The distributor address is wider than the fixed width.
    DistributorTooLong,
    /// The target contract identifier is malformed.
    BadContract,
}

/// Everything a validator process needs to propose a cork: the
/// normalized target contract, the encoded payload, and the trigger
/// height.
pub struct CorkPlan {
    pub contract: NormalizedAddress,
    pub payload: EncodedPayload,
    pub height: u64,
}

/// Inspects a deployed target contract by the accounts that may receive
/// from it.
pub struct CellarcontractCmd {
    /// Candidate recipient accounts, as textual contract identifiers.
    pub recipient: Vec<String>,
}

impl CellarcontractCmd {
    /// A command over the given recipient list.
    pub fn new(recipient: Vec<String>) -> (r: CellarcontractCmd)
        ensures
            r.recipient@ == recipient@,
    {
        CellarcontractCmd { recipient }
    }

    /// Validates every recipient identifier and normalizes the accounts
    /// they name.  Fails on the first malformed identifier.
    #[verifier::loop_isolation(false)]
    pub fn recipient_addresses(&self) -> (r: Result<Vec<NormalizedAddress>, AddressError>)
        ensures
            r is Ok <==> (forall|i: int|
                0 <= i < self.recipient@.len() ==> valid_contract_id(
                    (#[trigger] self.recipient@[i])@,
                )),
            r matches Ok(v) ==> v@.len() == self.recipient@.len() && (forall|i: int|
                0 <= i < v@.len() ==> (#[trigger] v@[i])@ == left_padded(
                    decoded_address(self.recipient@[i]@),
                )),
            r matches Err(e) ==> e == AddressError::Malformed,
    {
        let n = self.recipient.len();
        let mut out: Vec<NormalizedAddress> = Vec::new();
        let mut i: usize = 0;
        while i < n
            invariant
                i <= n,
                out@.len() == i,
                forall|j: int|
                    0 <= j < i ==> valid_contract_id((#[trigger] self.recipient@[j])@),
                forall|j: int|
                    0 <= j < i ==> (#[trigger] out@[j])@ == left_padded(
                        decoded_address(self.recipient@[j]@),
                    ),
            decreases n - i,
        {
            match parse_contract_id(self.recipient[i].as_str()) {
                Ok(a) => {
                    out.push(a);
                },
                Err(_) => {
                    return Err(AddressError::Malformed);
                },
            }
            i = i + 1;
        }
        Ok(out)
    }
}

/// Schedules a cork that points the target contract's fee bridge at a
/// new distributor account: the operator names the distributor, the
/// target contract, and the trigger height.
pub struct FeesDistributorCmd {
    /// The distributor account in its chain-native byte form.
    pub new_fees_distributor: Vec<u8>,
    /// The target contract, as a textual contract identifier.
    pub contract: String,
    /// The consensus height at which the call becomes executable.
    pub height: u64,
}

impl FeesDistributorCmd {
    /// The payload bytes the command encodes to: the fee-distributor
    /// tag, then the distributor account left-padded to the fixed
    /// width.
    pub open spec fn payload_bytes(&self) -> Seq<u8> {
        seq![0x8fu8, 0x31u8, 0xa2u8, 0x4bu8] + left_padded(self.new_fees_distributor@)
    }

    /// Turns the command into a scheduling plan: normalizes the
    /// distributor account, encodes the call, and validates the target
    /// contract identifier.
    ///
    /// Fails exactly when the distributor is wider than the fixed width
    /// or the contract identifier is malformed; the distributor is
    /// checked first.
    pub fn plan(&self) -> (r: Result<CorkPlan, PlanError>)
        ensures
            r is Ok <==> self.new_fees_distributor@.len() <= 32 && valid_contract_id(
                self.contract@,
            ),
            r matches Ok(p) ==> p.contract@ == left_padded(decoded_address(self.contract@))
                && p.payload@ == self.payload_bytes() && p.height == self.height,
            r == Result::<CorkPlan, PlanError>::Err(PlanError::DistributorTooLong)
                <==> self.new_fees_distributor@.len() > 32,
            r == Result::<CorkPlan, PlanError>::Err(PlanError::BadContract)
                <==> self.new_fees_distributor@.len() <= 32 && !valid_contract_id(self.contract@),
    {
        let distributor = match normalize(&self.new_fees_distributor) {
            Ok(a) => a,
            Err(_) => {
                return Err(PlanError::DistributorTooLong);
            },
        };
        let call = CallVariant::SetFeesDistributor { new_fees_distributor: distributor };
        let payload = match encode(&call) {
            Ok(p) => p,
            Err(_) => {
                proof {
                    assert(false);
                }
                return Err(PlanError::DistributorTooLong);
            },
        };
        proof {
            assert(payload@ == encoded(call));
            assert(payload@ =~= self.payload_bytes());
        }
        let contract = match parse_contract_id(self.contract.as_str()) {
            Ok(a) => a,
            Err(_) => {
                return Err(PlanError::BadContract);
            },
        };
        Ok(CorkPlan { contract, payload, height: self.height })
    }
}

} // verus!
