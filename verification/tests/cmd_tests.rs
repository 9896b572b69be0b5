use steward::cmd::CellarcontractCmd;
use steward::cmd::FeesDistributorCmd;
use steward::cmd::PlanError;
use steward::registry::Registry;
use steward::validators::ValidatorSet;

fn distributor_cmd() -> FeesDistributorCmd {
    FeesDistributorCmd {
        new_fees_distributor: vec![0xABu8; 20],
        contract: String::from("0x00112233445566778899aabbccddeeff00112233"),
        height: 100,
    }
}

#[test]
fn fees_distributor_plan_encodes_and_validates() {
    let plan = distributor_cmd().plan().unwrap();
    assert_eq!(plan.height, 100);
    let bytes = plan.payload.as_bytes();
    assert_eq!(bytes.len(), 36);
    assert_eq!(&bytes[0..4], &[0x8fu8, 0x31, 0xa2, 0x4b]);
    assert_eq!(&bytes[4..16], &[0u8; 12]);
    assert_eq!(&bytes[16..36], &[0xABu8; 20]);
    assert_eq!(plan.contract.as_bytes()[12], 0x00);
    assert_eq!(plan.contract.as_bytes()[31], 0x33);
}

#[test]
fn fees_distributor_plan_rejects_wide_distributor() {
    let mut cmd = distributor_cmd();
    cmd.new_fees_distributor = vec![1u8; 33];
    assert_eq!(cmd.plan().err(), Some(PlanError::DistributorTooLong));
}

#[test]
fn fees_distributor_plan_rejects_bad_contract() {
    let mut cmd = distributor_cmd();
    cmd.contract = String::from("not-a-contract");
    assert_eq!(cmd.plan().err(), Some(PlanError::BadContract));
}

#[test]
fn plan_feeds_a_proposal() {
    let mut vs = ValidatorSet::new();
    vs.add(1, 1).unwrap();
    let mut reg = Registry::new(vs, 1, 2, 3);
    let plan = distributor_cmd().plan().unwrap();
    let id = reg.propose(plan.contract, plan.height, plan.payload, 1).unwrap();
    assert_eq!(reg.cork_count(), 1);
    assert!(reg.get(&id).is_some());
}

#[test]
fn cellarcontract_recipients_are_validated() {
    let cmd = CellarcontractCmd::new(vec![
        String::from("0x1dF62f291b2E969fB0849d99D9Ce41e2F137006e"),
        String::from("0x00112233445566778899aabbccddeeff00112233"),
    ]);
    let parsed = cmd.recipient_addresses().unwrap();
    assert_eq!(parsed.len(), 2);
    assert_eq!(parsed[0].as_bytes()[12], 0x1d);

    let bad = CellarcontractCmd::new(vec![String::from("0xzz")]);
    assert!(bad.recipient_addresses().is_err());
}
