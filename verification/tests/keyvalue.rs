use omnia::keyvalue::{decode_counter, encode_counter, increment, Cas};

#[test]
fn increment_adds_delta() {
    let stored = 41i64.to_be_bytes();
    let (value, bytes) = increment(&stored, 1);
    assert_eq!(value, 42);
    assert_eq!(bytes, 42i64.to_be_bytes().to_vec());
}

#[test]
fn increment_pads_short_values() {
    // [0x01] is read as 0x0100_0000_0000_0000
    let (value, _) = increment(&[1u8], 0);
    assert_eq!(value, i64::from_be_bytes([1, 0, 0, 0, 0, 0, 0, 0]));
    let (value, _) = increment(&[], 7);
    assert_eq!(value, 7);
}

#[test]
fn increment_ignores_bytes_past_eight() {
    let mut stored = 5i64.to_be_bytes().to_vec();
    stored.extend_from_slice(&[9, 9, 9]);
    assert_eq!(decode_counter(&stored), 5);
}

#[test]
fn negative_counters_round_trip() {
    let bytes = encode_counter(-3);
    assert_eq!(bytes, (-3i64).to_be_bytes().to_vec());
    assert_eq!(decode_counter(&bytes), -3);
    let (value, _) = increment(&bytes, -4);
    assert_eq!(value, -7);
}

#[test]
fn increments_accumulate() {
    let (_, first) = increment(&10i64.to_be_bytes(), 5);
    let (value, _) = increment(&first, 7);
    assert_eq!(value, 22);
}

#[test]
fn cas_holds_key_and_current() {
    let cas = Cas { key: "k".to_string(), current: Some(vec![1, 2]) };
    assert_eq!(cas.key, "k");
    assert_eq!(cas.current, Some(vec![1, 2]));
}

#[test]
fn increment_creates_missing_key_with_delta() {
    let (v, bytes) = omnia::keyvalue::increment_stored(None, 7);
    assert_eq!(v, 7);
    assert_eq!(bytes, 7i64.to_be_bytes().to_vec());
    let (v, bytes) = omnia::keyvalue::increment_stored(Some(&bytes), -10);
    assert_eq!(v, -3);
    assert_eq!(bytes, (-3i64).to_be_bytes().to_vec());
}
