use breez_ldk::mirroring_store::{
    confirmed, full_key, needs_reconcile, plan_write, reconciled_row, reconciled_version, same_bytes, split_full_key,
    versions_after_write, RowVersions, WritePlan,
};
use breez_ldk::vss_store::{append_key_versions, delete_item, next_page_token, put_item, stored_value, KeyValue, VssFailure};

#[test]
fn full_key_joins_and_split_recovers() {
    let k = full_key("ns1", "ns2", "key/with/slash");
    assert_eq!(k, "ns1/ns2/key/with/slash");
    let (p, s, key) = split_full_key(&k).unwrap();
    assert_eq!((p.as_str(), s.as_str(), key.as_str()), ("ns1", "ns2", "key/with/slash"));
    let (p, s, key) = split_full_key("//").unwrap();
    assert_eq!((p.as_str(), s.as_str(), key.as_str()), ("", "", ""));
    let (p, s, key) = split_full_key("é/ü/ö").unwrap();
    assert_eq!((p.as_str(), s.as_str(), key.as_str()), ("é", "ü", "ö"));
    assert!(split_full_key("only/one").is_none());
    assert!(split_full_key("none").is_none());
    assert!(split_full_key("").is_none());
}

#[test]
fn writes_are_planned_by_version() {
    assert_eq!(plan_write(&None, b"v"), WritePlan::Insert { version: 0 });
    assert_eq!(plan_write(&Some((3, b"v".to_vec())), b"v"), WritePlan::Unchanged);
    assert_eq!(plan_write(&Some((3, b"v".to_vec())), b"w"), WritePlan::Update { version: 4 });
    assert_eq!(plan_write(&Some((0, b"".to_vec())), b"w"), WritePlan::Update { version: 1 });
    assert!(same_bytes(b"abc", b"abc"));
    assert!(!same_bytes(b"abc", b"abd"));
    assert!(!same_bytes(b"ab", b"abc"));
}

#[test]
fn write_after_reconcile_sends_remote_version() {
    let remote_version = 7;
    let local_version = reconciled_version(remote_version);
    assert_eq!(local_version, 6);
    assert_eq!(plan_write(&Some((local_version, b"old".to_vec())), b"new"), WritePlan::Update { version: 7 });
    assert_eq!(reconciled_version(0), -1);
}

#[test]
fn reconcile_decision() {
    assert!(needs_reconcile(false, 0));
    assert!(needs_reconcile(true, 1));
    assert!(!needs_reconcile(true, 0));
}

#[test]
fn vss_answers_are_read() {
    let kv = KeyValue { key: "k".to_string(), version: 5, value: b"v".to_vec() };
    assert_eq!(stored_value(Ok(Some(kv))).ok().unwrap(), Some((b"v".to_vec(), 5)));
    assert_eq!(stored_value(Ok(None)).ok().unwrap(), None);
    assert_eq!(stored_value(Err(VssFailure::NoSuchKey("k".to_string()))).ok().unwrap(), None);
    assert!(matches!(stored_value(Err(VssFailure::Other("x".to_string()))), Err(VssFailure::Other(_))));
}

#[test]
fn vss_requests_are_built() {
    let kv = put_item("k".to_string(), b"value", 3);
    assert_eq!((kv.key.as_str(), kv.version, kv.value.as_slice()), ("k", 3, &b"value"[..]));
    let kv = delete_item("k".to_string());
    assert_eq!((kv.key.as_str(), kv.version, kv.value.len()), ("k", -1, 0));
    assert_eq!(next_page_token(None), None);
    assert_eq!(next_page_token(Some(String::new())), None);
    assert_eq!(next_page_token(Some("t".to_string())), Some("t".to_string()));
}

#[test]
fn listing_pages_are_gathered_in_order() {
    let mut versions = vec![("a".to_string(), 1)];
    let page = vec![
        KeyValue { key: "b".to_string(), version: 2, value: Vec::new() },
        KeyValue { key: "c".to_string(), version: 3, value: b"ignored".to_vec() },
    ];
    append_key_versions(&mut versions, page);
    assert_eq!(versions, vec![("a".to_string(), 1), ("b".to_string(), 2), ("c".to_string(), 3)]);
    append_key_versions(&mut versions, Vec::new());
    assert_eq!(versions.len(), 3);
}

#[test]
fn changing_values_get_consecutive_versions() {
    let values: [&[u8]; 4] = [b"a", b"b", b"c", b"d"];
    let mut row: Option<(i64, Vec<u8>)> = None;
    for (n, v) in values.iter().enumerate() {
        let version = match plan_write(&row, v) {
            WritePlan::Insert { version } | WritePlan::Update { version } => version,
            WritePlan::Unchanged => panic!("a changed value was not written"),
        };
        assert_eq!(version, n as i64);
        row = Some((version, v.to_vec()));
    }
    assert_eq!(plan_write(&row, b"d"), WritePlan::Unchanged);
}

#[test]
fn rows_await_the_remote_until_confirmed() {
    let row = versions_after_write(None, plan_write(&None, b"a")).unwrap();
    assert_eq!(row, RowVersions { local_version: 0, remote_version: -1 });
    let row = confirmed(row);
    assert_eq!(row, RowVersions { local_version: 0, remote_version: 0 });

    let plan = plan_write(&Some((0, b"a".to_vec())), b"b");
    let row = versions_after_write(Some(row), plan).unwrap();
    assert_eq!(row, RowVersions { local_version: 1, remote_version: 0 });
    assert_ne!(row.local_version, row.remote_version);
    assert_eq!(confirmed(row), RowVersions { local_version: 1, remote_version: 1 });

    let same = versions_after_write(Some(row), plan_write(&Some((1, b"b".to_vec())), b"b"));
    assert_eq!(same, Some(row));

    assert_eq!(reconciled_row(5), RowVersions { local_version: 4, remote_version: 4 });
    assert_eq!(reconciled_row(0), RowVersions { local_version: -1, remote_version: -1 });
}
