use steward::address::NormalizedAddress;
use steward::address::normalize;
use steward::cork::CorkState;
use steward::encode::CallVariant;
use steward::encode::EncodedPayload;
use steward::encode::encode;
use steward::registry::DispatchError;
use steward::registry::DispatchOutcome;
use steward::registry::EndorseError;
use steward::registry::EndorseOutcome;
use steward::registry::InvalidateError;
use steward::registry::ProposeError;
use steward::registry::Registry;
use steward::validators::ValidatorSet;
use steward::validators::ValidatorSetError;

fn three_equal_validators() -> ValidatorSet {
    let mut vs = ValidatorSet::new();
    vs.add(1, 1).unwrap();
    vs.add(2, 1).unwrap();
    vs.add(3, 1).unwrap();
    vs
}

fn contract_a() -> NormalizedAddress {
    normalize(&vec![0xC0u8; 20]).unwrap()
}

fn fee_payload(fee: u16) -> EncodedPayload {
    encode(&CallVariant::SetFee { new_fee: fee }).unwrap()
}

fn registry_half_threshold() -> Registry {
    Registry::new(three_equal_validators(), 1, 2, 3)
}

#[test]
fn validator_set_rejects_duplicate_and_overflow() {
    let mut vs = ValidatorSet::new();
    vs.add(1, 10).unwrap();
    assert_eq!(vs.add(1, 5), Err(ValidatorSetError::DuplicateValidator));
    assert_eq!(vs.add(2, u64::MAX), Err(ValidatorSetError::WeightOverflow));
    vs.add(2, 7).unwrap();
    assert_eq!(vs.total(), 17);
    assert!(vs.is_member(2));
    assert!(!vs.is_member(3));
}

#[test]
fn quorum_is_strict_excess() {
    let vs = three_equal_validators();
    // two of three at a two-thirds threshold is not a strict excess
    assert!(!vs.check_quorum(&vec![1, 2], 2, 3));
    // but it strictly exceeds one half
    assert!(vs.check_quorum(&vec![1, 2], 1, 2));
    assert!(!vs.check_quorum(&vec![1], 1, 2));
}

#[test]
fn propose_rejects_stale_height() {
    let mut reg = registry_half_threshold();
    reg.on_height_event(100, true, None);
    let r = reg.propose(contract_a(), 100, fee_payload(1), 1);
    assert_eq!(r.err(), Some(ProposeError::PastHeight));
    assert_eq!(reg.cork_count(), 0);
}

#[test]
fn propose_same_intent_twice_is_idempotent() {
    let mut reg = registry_half_threshold();
    let id1 = reg.propose(contract_a(), 100, fee_payload(1), 1).unwrap();
    reg.endorse(&id1, 1, 11).unwrap();
    let id2 = reg.propose(contract_a(), 100, fee_payload(1), 2).unwrap();
    assert!(id1.same_identity(&id2));
    assert_eq!(reg.cork_count(), 1);
    // the endorsement recorded between the two proposals survives
    let c = reg.get(&id1).unwrap();
    assert_eq!(c.endorsements.len(), 1);
    assert_eq!(c.state, CorkState::Endorsed);
}

#[test]
fn distinct_payloads_make_distinct_corks() {
    let mut reg = registry_half_threshold();
    let id1 = reg.propose(contract_a(), 100, fee_payload(1), 1).unwrap();
    let id2 = reg.propose(contract_a(), 100, fee_payload(2), 1).unwrap();
    assert!(!id1.same_identity(&id2));
    assert_eq!(reg.cork_count(), 2);
}

#[test]
fn endorse_unknown_cork_is_rejected() {
    let mut reg = registry_half_threshold();
    let id = reg.propose(contract_a(), 100, fee_payload(1), 1).unwrap();
    let mut other = registry_half_threshold();
    let foreign = other.propose(contract_a(), 555, fee_payload(1), 1).unwrap();
    assert_eq!(reg.endorse(&foreign, 1, 5).err(), Some(EndorseError::UnknownCork));
    let _ = id;
}

#[test]
fn endorse_from_non_member_is_rejected() {
    let mut reg = registry_half_threshold();
    let id = reg.propose(contract_a(), 100, fee_payload(1), 1).unwrap();
    assert_eq!(reg.endorse(&id, 9, 5).err(), Some(EndorseError::NotEligible));
    assert_eq!(reg.get(&id).unwrap().endorsements.len(), 0);
}

#[test]
fn repeated_endorsement_is_a_no_op_and_conflict_is_an_error() {
    let mut reg = registry_half_threshold();
    let id = reg.propose(contract_a(), 100, fee_payload(1), 1).unwrap();
    assert_eq!(reg.endorse(&id, 1, 11), Ok(EndorseOutcome::Recorded));
    assert_eq!(reg.endorse(&id, 1, 11), Ok(EndorseOutcome::AlreadyEndorsed));
    assert_eq!(reg.get(&id).unwrap().endorsements.len(), 1);
    assert_eq!(reg.endorse(&id, 1, 12).err(), Some(EndorseError::ProofConflict));
    assert_eq!(reg.get(&id).unwrap().endorsements.len(), 1);
}

#[test]
fn quorum_is_reevaluated_when_the_validator_set_changes() {
    let mut vs = ValidatorSet::new();
    vs.add(1, 1).unwrap();
    vs.add(2, 1).unwrap();
    let mut reg = Registry::new(vs, 1, 2, 3);
    let id = reg.propose(contract_a(), 100, fee_payload(1), 1).unwrap();
    reg.endorse(&id, 1, 11).unwrap();
    reg.endorse(&id, 2, 22).unwrap();
    assert_eq!(reg.get(&id).unwrap().state, CorkState::Ready);

    // total weight grows: the same endorsers fall under threshold
    let mut grown = ValidatorSet::new();
    grown.add(1, 1).unwrap();
    grown.add(2, 1).unwrap();
    grown.add(3, 2).unwrap();
    reg.set_validators(grown);
    assert_eq!(reg.get(&id).unwrap().state, CorkState::Endorsed);

    // active weight shrinks again: quorum returns without re-endorsing
    let mut shrunk = ValidatorSet::new();
    shrunk.add(1, 1).unwrap();
    shrunk.add(2, 1).unwrap();
    reg.set_validators(shrunk);
    assert_eq!(reg.get(&id).unwrap().state, CorkState::Ready);
}

#[test]
fn provisional_heights_do_not_promote() {
    let mut reg = registry_half_threshold();
    let id = reg.propose(contract_a(), 100, fee_payload(1), 1).unwrap();
    reg.endorse(&id, 1, 11).unwrap();
    reg.endorse(&id, 2, 22).unwrap();
    reg.on_height_event(100, false, None);
    assert_eq!(reg.current_height(), 0);
    assert_eq!(reg.get(&id).unwrap().state, CorkState::Ready);
}

#[test]
fn final_height_is_monotone_without_reorg() {
    let mut reg = registry_half_threshold();
    reg.on_height_event(50, true, None);
    reg.on_height_event(40, true, None);
    assert_eq!(reg.current_height(), 50);
}

#[test]
fn executable_queue_orders_by_height_then_proposal() {
    let mut reg = registry_half_threshold();
    let id_late = reg.propose(contract_a(), 60, fee_payload(1), 1).unwrap();
    let id_early = reg.propose(contract_a(), 40, fee_payload(2), 1).unwrap();
    let id_tie = reg.propose(contract_a(), 60, fee_payload(3), 1).unwrap();
    for id in [&id_late, &id_early, &id_tie] {
        reg.endorse(id, 1, 11).unwrap();
        reg.endorse(id, 2, 22).unwrap();
    }
    reg.on_height_event(60, true, None);
    let first = reg.next_executable().unwrap();
    assert!(first.same_identity(&id_early));
    let payload = reg.begin_dispatch(&first).unwrap();
    assert_eq!(payload.as_bytes(), fee_payload(2).as_bytes());
    // the lowest height is out dispatching; of the tie the earlier proposal wins
    let second = reg.next_executable().unwrap();
    assert!(second.same_identity(&id_late));
}

#[test]
fn list_state_reports_identities_in_proposal_order() {
    let mut reg = registry_half_threshold();
    let id1 = reg.propose(contract_a(), 100, fee_payload(1), 1).unwrap();
    let id2 = reg.propose(contract_a(), 200, fee_payload(2), 1).unwrap();
    reg.endorse(&id2, 1, 11).unwrap();
    let proposed = reg.list_state(CorkState::Proposed);
    assert_eq!(proposed.len(), 1);
    assert!(proposed[0].same_identity(&id1));
    let endorsed = reg.list_state(CorkState::Endorsed);
    assert_eq!(endorsed.len(), 1);
    assert!(endorsed[0].same_identity(&id2));
    assert_eq!(reg.list_state(CorkState::Executed).len(), 0);
}

#[test]
fn invalidate_blocks_undispatched_cork_and_is_idempotent() {
    let mut reg = registry_half_threshold();
    let id = reg.propose(contract_a(), 100, fee_payload(1), 1).unwrap();
    reg.endorse(&id, 1, 11).unwrap();
    assert_eq!(reg.invalidate(&id), Ok(()));
    assert_eq!(reg.get(&id).unwrap().state, CorkState::Invalidated);
    // cancelling again stays a no-op
    assert_eq!(reg.invalidate(&id), Ok(()));
    // an invalidated cork takes no endorsement and never dispatches
    assert_eq!(reg.endorse(&id, 2, 22).err(), Some(EndorseError::CorkClosed));
    assert!(reg.next_executable().is_none());
}

#[test]
fn invalidate_after_dispatch_left_is_too_late() {
    let mut reg = registry_half_threshold();
    let id = reg.propose(contract_a(), 100, fee_payload(1), 1).unwrap();
    reg.endorse(&id, 1, 11).unwrap();
    reg.endorse(&id, 2, 22).unwrap();
    reg.on_height_event(100, true, None);
    reg.begin_dispatch(&id).unwrap();
    assert_eq!(reg.invalidate(&id).err(), Some(InvalidateError::TooLate));
}

#[test]
fn dispatch_calls_on_unknown_cork_are_rejected() {
    let mut reg = registry_half_threshold();
    let mut other = registry_half_threshold();
    let foreign = other.propose(contract_a(), 555, fee_payload(1), 1).unwrap();
    assert_eq!(reg.begin_dispatch(&foreign).err(), Some(DispatchError::UnknownCork));
    assert_eq!(
        reg.record_outcome(&foreign, DispatchOutcome::Succeeded).err(),
        Some(DispatchError::UnknownCork)
    );
    assert_eq!(reg.invalidate(&foreign).err(), Some(InvalidateError::UnknownCork));
}

#[test]
fn outcome_without_a_submission_in_flight_is_rejected() {
    let mut reg = registry_half_threshold();
    let id = reg.propose(contract_a(), 100, fee_payload(1), 1).unwrap();
    assert_eq!(
        reg.record_outcome(&id, DispatchOutcome::Succeeded).err(),
        Some(DispatchError::NotInFlight)
    );
}

#[test]
fn invalidate_after_execution_is_too_late() {
    let mut reg = registry_half_threshold();
    let id = reg.propose(contract_a(), 100, fee_payload(1), 1).unwrap();
    reg.endorse(&id, 1, 11).unwrap();
    reg.endorse(&id, 2, 22).unwrap();
    reg.on_height_event(100, true, None);
    reg.begin_dispatch(&id).unwrap();
    reg.record_outcome(&id, DispatchOutcome::Succeeded).unwrap();
    assert_eq!(reg.invalidate(&id).err(), Some(InvalidateError::TooLate));
}
