use tally::codec::{deserialize, serialize};
use tally::state::StateDto;

fn round_trips(good: i64, evil: i64) {
    let s = StateDto { good, evil };
    let bytes = serialize(&s);
    let back = deserialize(&bytes).unwrap();
    assert_eq!(back, s);
}

#[test]
fn serialize_zero_pair() {
    let bytes = serialize(&StateDto { good: 0, evil: 0 });
    assert_eq!(bytes, b"{\"good\":0,\"evil\":0}".to_vec());
}

#[test]
fn serialize_exact_shape() {
    let bytes = serialize(&StateDto { good: 42, evil: 7 });
    assert_eq!(bytes, b"{\"good\":42,\"evil\":7}".to_vec());
}

#[test]
fn serialize_largest_values() {
    let bytes = serialize(&StateDto { good: i64::MAX, evil: i64::MAX });
    assert_eq!(
        bytes,
        b"{\"good\":9223372036854775807,\"evil\":9223372036854775807}".to_vec()
    );
}

#[test]
fn round_trip_small_pairs() {
    round_trips(0, 0);
    round_trips(1, 0);
    round_trips(0, 1);
    round_trips(2, 1);
    round_trips(9, 10);
    round_trips(100, 99);
}

#[test]
fn round_trip_large_pairs() {
    round_trips(i64::MAX, 0);
    round_trips(0, i64::MAX);
    round_trips(i64::MAX, i64::MAX);
    round_trips(1_000_000_007, 998_244_353);
}

#[test]
fn a_conforming_json_reader_recovers_the_pair() {
    let bytes = serialize(&StateDto { good: 123, evil: 456 });
    let value: serde_json::Value = serde_json::from_slice(&bytes).unwrap();
    assert_eq!(value.get("good").unwrap().as_i64().unwrap(), 123);
    assert_eq!(value.get("evil").unwrap().as_i64().unwrap(), 456);
    assert_eq!(value.as_object().unwrap().len(), 2);
}

#[test]
fn deserialize_accepts_exact_shape() {
    let bytes = b"{\"good\":17,\"evil\":3}".to_vec();
    let s = deserialize(&bytes).unwrap();
    assert_eq!(s, StateDto { good: 17, evil: 3 });
}

#[test]
fn deserialize_rejects_empty_input() {
    assert!(deserialize(&Vec::new()).is_none());
}

#[test]
fn deserialize_rejects_wrong_prefix() {
    assert!(deserialize(&b"{\"gold\":1,\"evil\":2}".to_vec()).is_none());
    assert!(deserialize(&b"[\"good\",1]".to_vec()).is_none());
}

#[test]
fn deserialize_rejects_missing_number() {
    assert!(deserialize(&b"{\"good\":,\"evil\":2}".to_vec()).is_none());
    assert!(deserialize(&b"{\"good\":".to_vec()).is_none());
}

#[test]
fn deserialize_rejects_leading_zero() {
    assert!(deserialize(&b"{\"good\":01,\"evil\":2}".to_vec()).is_none());
    assert!(deserialize(&b"{\"good\":1,\"evil\":00}".to_vec()).is_none());
}

#[test]
fn deserialize_accepts_plain_zero() {
    let s = deserialize(&b"{\"good\":0,\"evil\":0}".to_vec()).unwrap();
    assert_eq!(s, StateDto { good: 0, evil: 0 });
}

#[test]
fn deserialize_rejects_negative_number() {
    assert!(deserialize(&b"{\"good\":-1,\"evil\":2}".to_vec()).is_none());
}

#[test]
fn deserialize_rejects_out_of_range_number() {
    // One past i64::MAX.
    assert!(deserialize(&b"{\"good\":9223372036854775808,\"evil\":2}".to_vec()).is_none());
    // Far past i64::MAX.
    assert!(deserialize(&b"{\"good\":99999999999999999999999,\"evil\":2}".to_vec()).is_none());
    // The boundary itself is accepted.
    let s = deserialize(&b"{\"good\":9223372036854775807,\"evil\":2}".to_vec()).unwrap();
    assert_eq!(s.good, i64::MAX);
}

#[test]
fn deserialize_rejects_wrong_separator() {
    assert!(deserialize(&b"{\"good\":1;\"evil\":2}".to_vec()).is_none());
    assert!(deserialize(&b"{\"good\":1,\"axis\":2}".to_vec()).is_none());
}

#[test]
fn deserialize_rejects_missing_or_trailing_bytes() {
    assert!(deserialize(&b"{\"good\":1,\"evil\":2".to_vec()).is_none());
    assert!(deserialize(&b"{\"good\":1,\"evil\":2}}".to_vec()).is_none());
    assert!(deserialize(&b"{\"good\":1,\"evil\":2} ".to_vec()).is_none());
}
