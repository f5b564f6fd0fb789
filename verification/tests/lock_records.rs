use breez_ldk::lock_data::{LockData, LockDataError, LockError};
use breez_ldk::locking_store::read_lock_record;
use breez_ldk::text::parse_u64_digits;

#[test]
fn decode_reads_plus_sign_and_leading_zeros() {
    let d = LockData::decode(b"+0042/node".to_vec()).unwrap();
    assert_eq!(d.locked_until, 42);
    assert_eq!(d.instance_id, "node");
}

#[test]
fn decode_empty_expiry_is_epoch() {
    let d = LockData::decode(b"/node-1".to_vec()).unwrap();
    assert_eq!(d.locked_until, 0);
    assert_eq!(d.instance_id, "node-1");
}

#[test]
fn decode_without_separator_is_unlocked() {
    let d = LockData::decode(b"12345".to_vec()).unwrap();
    assert_eq!(d.locked_until, 0);
    assert_eq!(d.instance_id, "");
}

#[test]
fn decode_error_kinds() {
    assert!(matches!(LockData::decode(Vec::new()), Err(LockDataError::Empty)));
    assert!(matches!(LockData::decode(vec![b'1', b'/', 0xC0, 0x80]), Err(LockDataError::InvalidUtf8)));
    assert!(matches!(LockData::decode(b"12a/x".to_vec()), Err(LockDataError::InvalidTimestamp)));
    assert!(matches!(LockData::decode(b"+/x".to_vec()), Err(LockDataError::InvalidTimestamp)));
    assert!(matches!(LockData::decode(b"-1/x".to_vec()), Err(LockDataError::InvalidTimestamp)));
}

#[test]
fn decode_u64_limits() {
    let d = LockData::decode(b"18446744073709551615/x".to_vec()).unwrap();
    assert_eq!(d.locked_until, u64::MAX);
    assert!(matches!(
        LockData::decode(b"18446744073709551616/x".to_vec()),
        Err(LockDataError::InvalidTimestamp)
    ));
}

#[test]
fn decode_keeps_non_ascii_instance_ids() {
    let d = LockData::decode("7/ünïcödé/✓".as_bytes().to_vec()).unwrap();
    assert_eq!(d.locked_until, 7);
    assert_eq!(d.instance_id, "ünïcödé/✓");
}

#[test]
fn stored_empty_record_is_refused_and_missing_record_is_unlocked() {
    assert!(matches!(
        read_lock_record(Some((Vec::new(), 4))),
        Err(LockError::Unreadable(LockDataError::Empty))
    ));
    let (d, v) = read_lock_record(None).unwrap();
    assert_eq!((d.locked_until, d.instance_id.as_str(), v), (0, "", 0));
    let (d, v) = read_lock_record(Some((b"9/a".to_vec(), 2))).unwrap();
    assert_eq!((d.locked_until, d.instance_id.as_str(), v), (9, "a", 2));
}

#[test]
fn encode_round_trips_on_edge_values() {
    for (t, id) in [(0u64, ""), (u64::MAX, "a/b/c"), (10, "ünï")] {
        let d = LockData { locked_until: t, instance_id: id.to_string() };
        let back = LockData::decode(d.encode()).unwrap();
        assert_eq!(back.locked_until, t);
        assert_eq!(back.instance_id, id);
    }
    let d = LockData { locked_until: 0, instance_id: String::new() };
    assert_eq!(d.encode(), b"0/".to_vec());
}

#[test]
fn parse_digits_ranges() {
    let b = b"x123+7";
    assert_eq!(parse_u64_digits(b, 1, 4), Some(123));
    assert_eq!(parse_u64_digits(b, 4, 6), Some(7));
    assert_eq!(parse_u64_digits(b, 0, 0), None);
    assert_eq!(parse_u64_digits(b, 0, 2), None);
}
