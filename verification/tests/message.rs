use outcome_manager::build_message;
use outcome_manager::message::{
    DOMAIN_TAG, MESSAGE_LEN, OUTCOME_NONZERO, OUTCOME_ZERO, SEPARATOR,
};

/// The layout written out with std's own big-endian encoders.
fn expected(call_id: u64, outcome: u32, price: i128, timestamp: u64) -> Vec<u8> {
    let mut out = Vec::new();
    out.extend_from_slice(b"BACKit:Outcome:");
    out.extend_from_slice(&call_id.to_be_bytes());
    out.extend_from_slice(b":");
    out.extend_from_slice(if outcome == 0 { b"0" } else { b"1" });
    out.extend_from_slice(b":");
    out.extend_from_slice(&price.to_be_bytes());
    out.extend_from_slice(b":");
    out.extend_from_slice(&timestamp.to_be_bytes());
    out
}

#[test]
fn message_of_the_reference_claim_is_exact() {
    let message = build_message(42, 1, 100_000_000_000_000_000_000, 1_700_000_000);
    let bytes: Vec<u8> = vec![
        0x42, 0x41, 0x43, 0x4b, 0x69, 0x74, 0x3a, 0x4f, 0x75, 0x74, 0x63, 0x6f, 0x6d, 0x65, 0x3a,
        0x00, 0x00, 0x00, 0x00, 0x00, 0x00, 0x00, 0x2a, 0x3a, 0x31, 0x3a, 0x00, 0x00, 0x00, 0x00,
        0x00, 0x00, 0x00, 0x05, 0x6b, 0xc7, 0x5e, 0x2d, 0x63, 0x10, 0x00, 0x00, 0x3a, 0x00, 0x00,
        0x00, 0x00, 0x65, 0x53, 0xf1, 0x00,
    ];
    assert_eq!(message, bytes);
}

#[test]
fn message_of_a_negative_price_is_twos_complement() {
    let message = build_message(0, 0, -1, 0);
    let bytes: Vec<u8> = vec![
        0x42, 0x41, 0x43, 0x4b, 0x69, 0x74, 0x3a, 0x4f, 0x75, 0x74, 0x63, 0x6f, 0x6d, 0x65, 0x3a,
        0x00, 0x00, 0x00, 0x00, 0x00, 0x00, 0x00, 0x00, 0x3a, 0x30, 0x3a, 0xff, 0xff, 0xff, 0xff,
        0xff, 0xff, 0xff, 0xff, 0xff, 0xff, 0xff, 0xff, 0xff, 0xff, 0xff, 0xff, 0x3a, 0x00, 0x00,
        0x00, 0x00, 0x00, 0x00, 0x00, 0x00,
    ];
    assert_eq!(message, bytes);
}

#[test]
fn message_at_the_extremes_is_exact() {
    let message = build_message(u64::MAX, 7, i128::MIN, u64::MAX);
    let bytes: Vec<u8> = vec![
        0x42, 0x41, 0x43, 0x4b, 0x69, 0x74, 0x3a, 0x4f, 0x75, 0x74, 0x63, 0x6f, 0x6d, 0x65, 0x3a,
        0xff, 0xff, 0xff, 0xff, 0xff, 0xff, 0xff, 0xff, 0x3a, 0x31, 0x3a, 0x80, 0x00, 0x00, 0x00,
        0x00, 0x00, 0x00, 0x00, 0x00, 0x00, 0x00, 0x00, 0x00, 0x00, 0x00, 0x00, 0x3a, 0xff, 0xff,
        0xff, 0xff, 0xff, 0xff, 0xff, 0xff,
    ];
    assert_eq!(message, bytes);
    let message = build_message(1, 0, i128::MAX, 2);
    assert_eq!(message, expected(1, 0, i128::MAX, 2));
    assert_eq!(message[26], 0x7f);
    assert_eq!(message[41], 0xff);
}

#[test]
fn message_agrees_with_std_big_endian_encoding() {
    let claims: Vec<(u64, u32, i128, u64)> = vec![
        (0, 0, 0, 0),
        (1, 1, 1, 1),
        (255, 0, 256, 65_536),
        (0x0102_0304_0506_0708, 9, -0x0102_0304_0506_0708_090a_0b0c_0d0e_0f10, 0x1112_1314_1516_1718),
        (42, 1, 100_000_000_000_000_000_000, 1_700_000_000),
        (u64::MAX, u32::MAX, i128::MIN + 1, u64::MAX - 1),
    ];
    for (call_id, outcome, price, timestamp) in claims {
        assert_eq!(
            build_message(call_id, outcome, price, timestamp),
            expected(call_id, outcome, price, timestamp)
        );
    }
}

#[test]
fn message_has_the_fixed_length_and_layout() {
    let message = build_message(3, 1, -5, 9);
    assert_eq!(MESSAGE_LEN, 51);
    assert_eq!(message.len(), MESSAGE_LEN);
    assert_eq!(&message[0..15], &DOMAIN_TAG[..]);
    assert_eq!(&DOMAIN_TAG[..], b"BACKit:Outcome:");
    assert_eq!(SEPARATOR, b':');
    assert_eq!(message[23], SEPARATOR);
    assert_eq!(message[24], OUTCOME_NONZERO);
    assert_eq!(message[25], SEPARATOR);
    assert_eq!(message[42], SEPARATOR);
    assert_eq!(OUTCOME_ZERO, b'0');
    assert_eq!(OUTCOME_NONZERO, b'1');
}

#[test]
fn message_is_deterministic() {
    let first = build_message(42, 1, 100_000_000_000_000_000_000, 1_700_000_000);
    let second = build_message(42, 1, 100_000_000_000_000_000_000, 1_700_000_000);
    assert_eq!(first, second);
}

#[test]
fn nonzero_outcomes_collapse_to_one() {
    let one = build_message(42, 1, 77, 1_700_000_000);
    for outcome in [2u32, 3, 4, 255, 256, 65_536, u32::MAX] {
        assert_eq!(build_message(42, outcome, 77, 1_700_000_000), one);
    }
}

#[test]
fn outcome_zero_differs_from_every_nonzero_outcome() {
    let zero = build_message(42, 0, 77, 1_700_000_000);
    assert_eq!(zero[24], b'0');
    for outcome in [1u32, 2, 3, u32::MAX] {
        let other = build_message(42, outcome, 77, 1_700_000_000);
        assert_ne!(other, zero);
        assert_eq!(other[24], b'1');
        assert_eq!(&other[..24], &zero[..24]);
        assert_eq!(&other[25..], &zero[25..]);
    }
}

#[test]
fn distinct_claims_have_distinct_messages() {
    let base = build_message(42, 1, 100, 1_700_000_000);
    assert_ne!(build_message(43, 1, 100, 1_700_000_000), base);
    assert_ne!(build_message(42, 1, 101, 1_700_000_000), base);
    assert_ne!(build_message(42, 1, -100, 1_700_000_000), base);
    assert_ne!(build_message(42, 1, 100, 1_700_000_001), base);
    assert_ne!(build_message(42 << 8, 1, 100, 1_700_000_000), base);
    assert_ne!(build_message(100, 1, 42, 1_700_000_000), base);
}
