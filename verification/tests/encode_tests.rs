use steward::address::normalize;
use steward::encode::CallVariant;
use steward::encode::EncodeError;
use steward::encode::TickInfo;
use steward::encode::encode;
use steward::hash::payload_hash;

fn distributor_call(native: &[u8]) -> CallVariant {
    let a = normalize(&native.to_vec()).unwrap();
    CallVariant::SetFeesDistributor { new_fees_distributor: a }
}

#[test]
fn encode_is_deterministic() {
    let call = distributor_call(&[7u8; 20]);
    let again = distributor_call(&[7u8; 20]);
    let p1 = encode(&call).unwrap();
    let p2 = encode(&again).unwrap();
    assert_eq!(p1.as_bytes(), p2.as_bytes());
}

#[test]
fn set_fee_encodes_to_known_vector() {
    let p = encode(&CallVariant::SetFee { new_fee: 5 }).unwrap();
    let mut expected = vec![0x4cu8, 0x0b, 0x90, 0xf1];
    expected.extend_from_slice(&[0u8; 30]);
    expected.extend_from_slice(&[0x00, 0x05]);
    assert_eq!(p.as_bytes(), &expected);
}

#[test]
fn set_fees_distributor_encodes_tag_then_padded_address() {
    let native: Vec<u8> = (1u8..=20u8).collect();
    let p = encode(&distributor_call(&native)).unwrap();
    let bytes = p.as_bytes();
    assert_eq!(bytes.len(), 36);
    assert_eq!(&bytes[0..4], &[0x8fu8, 0x31, 0xa2, 0x4b]);
    assert_eq!(&bytes[4..16], &[0u8; 12]);
    assert_eq!(&bytes[16..36], native.as_slice());
}

#[test]
fn set_validator_encodes_flag_word() {
    let a = normalize(&vec![9u8; 20]).unwrap();
    let p = encode(&CallVariant::SetValidator { validator: a, approved: true }).unwrap();
    let bytes = p.as_bytes();
    assert_eq!(bytes.len(), 68);
    assert_eq!(&bytes[0..4], &[0x9au8, 0xf1, 0x6e, 0x22]);
    assert_eq!(bytes[67], 1);
    assert_eq!(&bytes[36..67], &[0u8; 31]);
}

#[test]
fn rebalance_encodes_offset_length_and_items() {
    let ticks = vec![TickInfo { token_id: 7, tick_upper: 10, tick_lower: -10, weight: 3 }];
    let p = encode(&CallVariant::Rebalance { ticks }).unwrap();
    let bytes = p.as_bytes();
    assert_eq!(bytes.len(), 4 + 32 * 6);
    // offset word
    assert_eq!(bytes[4 + 31], 0x20);
    // length word
    assert_eq!(bytes[4 + 63], 1);
    // token id word
    assert_eq!(bytes[4 + 95], 7);
    // positive tick, big-endian in the last word bytes
    assert_eq!(&bytes[4 + 96..4 + 124], &[0u8; 28]);
    assert_eq!(bytes[4 + 127], 10);
    // negative tick in two's complement, sign-extended
    assert_eq!(&bytes[4 + 128..4 + 159], &[0xffu8; 31]);
    assert_eq!(bytes[4 + 159], 0xf6);
    // weight word
    assert_eq!(bytes[4 + 191], 3);
}

#[test]
fn rebalance_rejects_out_of_range_tick() {
    let ticks = vec![TickInfo { token_id: 1, tick_upper: 0x80_0000, tick_lower: 0, weight: 1 }];
    assert_eq!(encode(&CallVariant::Rebalance { ticks }).err(), Some(EncodeError::ValueOutOfRange));
    let ticks = vec![TickInfo { token_id: 1, tick_upper: 0, tick_lower: -0x80_0001, weight: 1 }];
    assert_eq!(encode(&CallVariant::Rebalance { ticks }).err(), Some(EncodeError::ValueOutOfRange));
    let ticks = vec![TickInfo { token_id: 1, tick_upper: 0, tick_lower: 0, weight: 0x100_0000 }];
    assert_eq!(encode(&CallVariant::Rebalance { ticks }).err(), Some(EncodeError::ValueOutOfRange));
}

#[test]
fn rebalance_rejects_over_long_tick_list() {
    let tick = TickInfo { token_id: 1, tick_upper: 0, tick_lower: 0, weight: 1 };
    let ticks = vec![tick; 65];
    assert_eq!(encode(&CallVariant::Rebalance { ticks }).err(), Some(EncodeError::TooManyItems));
}

#[test]
fn payload_hash_of_empty_input_is_the_basis() {
    assert_eq!(payload_hash(&Vec::new()), 0xcbf2_9ce4_8422_2325);
}

#[test]
fn payload_hash_matches_known_value() {
    assert_eq!(payload_hash(&vec![0x61u8]), 0xaf63_dc4c_8601_ec8c);
}

#[test]
fn equal_payloads_hash_alike() {
    let p1 = encode(&CallVariant::SetFee { new_fee: 77 }).unwrap();
    let p2 = encode(&CallVariant::SetFee { new_fee: 77 }).unwrap();
    assert_eq!(payload_hash(p1.as_bytes()), payload_hash(p2.as_bytes()));
    let p3 = encode(&CallVariant::SetFee { new_fee: 78 }).unwrap();
    assert_ne!(payload_hash(p1.as_bytes()), payload_hash(p3.as_bytes()));
}
