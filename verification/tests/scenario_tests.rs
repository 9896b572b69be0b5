use steward::address::NormalizedAddress;
use steward::address::normalize;
use steward::cork::CorkState;
use steward::cork::DispatchMarker;
use steward::encode::CallVariant;
use steward::encode::EncodedPayload;
use steward::encode::encode;
use steward::registry::DispatchError;
use steward::registry::DispatchOutcome;
use steward::registry::Registry;
use steward::validators::ValidatorSet;

fn three_equal_validators() -> ValidatorSet {
    let mut vs = ValidatorSet::new();
    vs.add(1, 1).unwrap();
    vs.add(2, 1).unwrap();
    vs.add(3, 1).unwrap();
    vs
}

fn contract_c() -> NormalizedAddress {
    normalize(&vec![0xCCu8; 20]).unwrap()
}

fn payload() -> EncodedPayload {
    let a = normalize(&vec![0xD1u8; 20]).unwrap();
    encode(&CallVariant::SetFeesDistributor { new_fees_distributor: a }).unwrap()
}

/// Quorum strictly exceeding one half of three equal weights: two of
/// three endorsers suffice, one does not.
fn registry() -> Registry {
    Registry::new(three_equal_validators(), 1, 2, 3)
}

#[test]
fn lifecycle_quorum_then_height_then_dispatch() {
    let mut reg = registry();
    let id = reg.propose(contract_c(), 100, payload(), 1).unwrap();
    assert_eq!(reg.get(&id).unwrap().state, CorkState::Proposed);

    reg.on_height_event(50, true, None);
    reg.endorse(&id, 1, 101).unwrap();
    assert_eq!(reg.get(&id).unwrap().state, CorkState::Endorsed);
    reg.endorse(&id, 2, 102).unwrap();
    // quorum met at height 50, trigger 100 still ahead
    assert_eq!(reg.get(&id).unwrap().state, CorkState::Ready);

    reg.on_height_event(100, true, None);
    assert_eq!(reg.get(&id).unwrap().state, CorkState::Executable);

    let sent = reg.begin_dispatch(&id).unwrap();
    assert_eq!(sent.as_bytes(), payload().as_bytes());
    assert_eq!(reg.record_outcome(&id, DispatchOutcome::Succeeded), Ok(CorkState::Executed));
    assert_eq!(reg.get(&id).unwrap().state, CorkState::Executed);

    // an identical proposal names the same cork and creates nothing new
    let id2 = reg.propose(contract_c(), 100, payload(), 2).unwrap();
    assert!(id.same_identity(&id2));
    assert_eq!(reg.cork_count(), 1);
}

#[test]
fn height_then_quorum_promotes_directly() {
    let mut reg = registry();
    let id = reg.propose(contract_c(), 100, payload(), 1).unwrap();
    reg.on_height_event(100, true, None);
    assert_eq!(reg.get(&id).unwrap().state, CorkState::Proposed);
    reg.endorse(&id, 1, 101).unwrap();
    assert_eq!(reg.get(&id).unwrap().state, CorkState::Endorsed);
    // the AND-gate closes on the second input; Ready is skipped
    reg.endorse(&id, 2, 102).unwrap();
    assert_eq!(reg.get(&id).unwrap().state, CorkState::Executable);
}

#[test]
fn insufficient_quorum_never_executes() {
    let mut reg = registry();
    let id = reg.propose(contract_c(), 100, payload(), 1).unwrap();
    reg.endorse(&id, 1, 101).unwrap();
    reg.on_height_event(100, true, None);
    assert_eq!(reg.get(&id).unwrap().state, CorkState::Endorsed);
    assert!(reg.next_executable().is_none());
    assert_eq!(reg.begin_dispatch(&id).err(), Some(DispatchError::NotExecutable));
}

#[test]
fn reorg_reverts_undispatched_cork_and_re_advance_restores_it() {
    let mut reg = registry();
    let id = reg.propose(contract_c(), 100, payload(), 1).unwrap();
    reg.endorse(&id, 1, 101).unwrap();
    reg.endorse(&id, 2, 102).unwrap();
    reg.on_height_event(100, true, None);
    assert_eq!(reg.get(&id).unwrap().state, CorkState::Executable);

    // the chain rolls back below the trigger height
    reg.on_height_event(90, true, Some(100));
    assert_eq!(reg.current_height(), 90);
    assert_eq!(reg.get(&id).unwrap().state, CorkState::Ready);

    // re-advancing restores it without any re-endorsement
    reg.on_height_event(100, true, None);
    assert_eq!(reg.get(&id).unwrap().state, CorkState::Executable);
}

#[test]
fn reorg_does_not_touch_in_flight_cork() {
    let mut reg = registry();
    let id = reg.propose(contract_c(), 100, payload(), 1).unwrap();
    reg.endorse(&id, 1, 101).unwrap();
    reg.endorse(&id, 2, 102).unwrap();
    reg.on_height_event(100, true, None);
    reg.begin_dispatch(&id).unwrap();

    reg.on_height_event(90, true, Some(100));
    let c = reg.get(&id).unwrap();
    assert_eq!(c.state, CorkState::Executable);
    assert!(matches!(c.marker, DispatchMarker::InFlight));

    // the submission that already left still completes
    assert_eq!(reg.record_outcome(&id, DispatchOutcome::Succeeded), Ok(CorkState::Executed));
}

#[test]
fn crash_and_restart_cannot_submit_twice() {
    let mut reg = registry();
    let id = reg.propose(contract_c(), 100, payload(), 1).unwrap();
    reg.endorse(&id, 1, 101).unwrap();
    reg.endorse(&id, 2, 102).unwrap();
    reg.on_height_event(100, true, None);

    // the in-flight marker is written before the submission leaves
    reg.begin_dispatch(&id).unwrap();

    // crash here: no outcome was recorded.  After restart the durable
    // marker still stands, so a blind resubmission is refused.
    assert_eq!(reg.begin_dispatch(&id).err(), Some(DispatchError::AlreadyInFlight));

    // recovery consults the execution chain and feeds its answer back
    assert_eq!(reg.record_outcome(&id, DispatchOutcome::Succeeded), Ok(CorkState::Executed));

    // the cork is terminal; nothing dispatches it again
    assert_eq!(reg.begin_dispatch(&id).err(), Some(DispatchError::NotExecutable));
    assert!(reg.next_executable().is_none());
}

#[test]
fn transient_failures_are_retried_then_escalated() {
    let mut reg = Registry::new(three_equal_validators(), 1, 2, 1);
    let id = reg.propose(contract_c(), 100, payload(), 1).unwrap();
    reg.endorse(&id, 1, 101).unwrap();
    reg.endorse(&id, 2, 102).unwrap();
    reg.on_height_event(100, true, None);

    reg.begin_dispatch(&id).unwrap();
    // one transient failure is under the cap: the cork goes back to the queue
    assert_eq!(reg.record_outcome(&id, DispatchOutcome::TransientFailure), Ok(CorkState::Executable));
    assert_eq!(reg.get(&id).unwrap().retries, 1);

    reg.begin_dispatch(&id).unwrap();
    // the cap is exhausted: the failure is surfaced, no silent retries
    assert_eq!(
        reg.record_outcome(&id, DispatchOutcome::TransientFailure),
        Ok(CorkState::DispatchFailed)
    );
    assert_eq!(reg.get(&id).unwrap().state, CorkState::DispatchFailed);
    assert_eq!(reg.begin_dispatch(&id).err(), Some(DispatchError::NotExecutable));
}

#[test]
fn permanent_failure_is_recorded_and_never_retried() {
    let mut reg = registry();
    let id = reg.propose(contract_c(), 100, payload(), 1).unwrap();
    reg.endorse(&id, 1, 101).unwrap();
    reg.endorse(&id, 2, 102).unwrap();
    reg.on_height_event(100, true, None);
    reg.begin_dispatch(&id).unwrap();
    assert_eq!(
        reg.record_outcome(&id, DispatchOutcome::PermanentFailure),
        Ok(CorkState::DispatchFailed)
    );
    assert!(reg.next_executable().is_none());
}
