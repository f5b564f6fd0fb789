use breez_ldk::lock_data::{LockData, LockDataError, LockError};
use breez_ldk::locking_store::{self, read_lock_record};
use breez_ldk::refresher::{refresher_step, RefresherAction, RefresherEvent, RefresherState};
use breez_ldk::vss_lock::{self, latest_lock_record, read_time_lock};
use breez_ldk::vss_store::{KeyValue, VssFailure};

#[test]
fn vss_lock_is_exclusive_until_expiry() {
    let mut a = vss_lock::TimeLock::without_record("a".to_string());
    assert!(!a.is_foreign_locked_at(1000));
    let kv = a.lock_at(1000).unwrap();
    assert_eq!(kv.key, "lock");
    assert_eq!(kv.version, 0);
    assert_eq!(kv.value, b"1060/a".to_vec());
    assert_eq!(a.version, 1);
    assert!(a.is_local_locked_at(1059));
    assert!(!a.is_local_locked_at(1060));

    let stored = KeyValue { key: kv.key.clone(), version: 1, value: kv.value.clone() };
    let mut b = vss_lock::TimeLock::new("b".to_string(), stored).unwrap();
    assert!(b.is_foreign_locked_at(1059));
    match b.lock_at(1030) {
        Err(LockError::HeldBy(id)) => assert_eq!(id, "a"),
        _ => panic!("the lock of another instance was taken"),
    }
    assert_eq!(b.version, 1);
    let kv_b = b.lock_at(1060).unwrap();
    assert_eq!(kv_b.version, 1);
    assert_eq!(kv_b.value, b"1120/b".to_vec());
}

#[test]
fn vss_lock_release_frees_the_lock() {
    let mut a = vss_lock::TimeLock::without_record("a".to_string());
    a.lock_at(500).unwrap();
    assert!(a.unlock_at(600).is_none());
    let kv = a.unlock_at(510).unwrap();
    assert_eq!(kv.value, b"0/a".to_vec());
    assert_eq!(kv.version, 1);
    assert!(!a.is_local_locked_at(0));
    let stored = KeyValue { key: kv.key, version: 2, value: kv.value };
    let mut b = vss_lock::TimeLock::new("b".to_string(), stored).unwrap();
    assert!(!b.is_foreign_locked_at(0));
    assert!(b.lock_at(511).is_ok());
}

#[test]
fn vss_lock_reads_own_record_as_held() {
    let stored = KeyValue { key: "lock".to_string(), version: 4, value: b"2000/me".to_vec() };
    let mut me = vss_lock::TimeLock::new("me".to_string(), stored).unwrap();
    assert!(me.is_local_locked_at(1999));
    let kv = me.lock_at(1999).unwrap();
    assert_eq!(kv.version, 4);
    assert_eq!(kv.value, b"2059/me".to_vec());
}

#[test]
fn vss_lock_expiry_saturates() {
    let mut a = vss_lock::TimeLock::without_record("a".to_string());
    let kv = a.lock_at(u64::MAX - 10).unwrap();
    assert_eq!(a.locked_until, u64::MAX);
    assert_eq!(kv.value, format!("{}/a", u64::MAX).into_bytes());
}

#[test]
fn vss_lock_refuses_unreadable_record() {
    let stored = KeyValue { key: "lock".to_string(), version: 1, value: b"soon/x".to_vec() };
    assert!(vss_lock::TimeLock::new("a".to_string(), stored).is_err());
}

#[test]
fn vss_lock_clock_reading_versions() {
    let mut a = vss_lock::TimeLock::without_record("a".to_string());
    assert!(!a.is_local_locked());
    assert!(!a.is_foreign_locked());
    let kv = a.lock().unwrap();
    assert_eq!(kv.version, 0);
    assert!(a.is_local_locked());
    assert!(a.unlock().is_some());
    assert!(!a.is_local_locked());
}

#[test]
fn latest_lock_record_reads_missing_as_none() {
    assert!(latest_lock_record(Err(VssFailure::NoSuchKey("lock".to_string()))).unwrap().is_none());
    assert!(latest_lock_record(Ok(None)).unwrap().is_none());
    let found = KeyValue { key: "lock".to_string(), version: 3, value: b"1/x".to_vec() };
    let kv = latest_lock_record(Ok(Some(found))).unwrap().unwrap();
    assert_eq!(kv.version, 3);
    assert_eq!(kv.value, b"1/x".to_vec());
    match latest_lock_record(Err(VssFailure::Other("down".to_string()))) {
        Err(VssFailure::Other(m)) => assert_eq!(m, "down"),
        _ => panic!("a failure was hidden"),
    }
}

#[test]
fn vss_lock_without_record_is_free() {
    let t = vss_lock::TimeLock::without_record("me".to_string());
    assert_eq!(t.local_instance_id, "me");
    assert_eq!(t.locked_for_instance_id, "");
    assert_eq!(t.locked_until, 0);
    assert_eq!(t.version, 0);
    assert!(!t.is_foreign_locked_at(0));
    assert!(!t.is_local_locked_at(0));
}

#[test]
fn vss_lock_refuses_empty_stored_record() {
    let stored = KeyValue { key: "lock".to_string(), version: 2, value: Vec::new() };
    assert!(matches!(
        vss_lock::TimeLock::new("a".to_string(), stored),
        Err(LockDataError::Empty)
    ));
}

#[test]
fn vss_lock_versions_count_up_per_record() {
    let mut a = vss_lock::TimeLock::without_record("a".to_string());
    let mut versions = Vec::new();
    if let Ok(kv) = a.lock_at(100) {
        versions.push(kv.version);
    }
    if let Some(kv) = a.unlock_at(300) {
        versions.push(kv.version);
    }
    if let Ok(kv) = a.lock_at(110) {
        versions.push(kv.version);
    }
    versions.push(a.update_lock(500).version);
    if let Some(kv) = a.unlock_at(200) {
        versions.push(kv.version);
    }
    assert_eq!(versions, vec![0, 1, 2, 3]);
    assert_eq!(a.version, 4);
}

#[test]
fn vss_lock_second_unlock_gives_nothing() {
    let mut a = vss_lock::TimeLock::without_record("a".to_string());
    a.lock_at(100).unwrap();
    assert!(a.unlock_at(120).is_some());
    assert!(!a.is_local_locked_at(120));
    let before = (a.locked_until, a.version);
    assert!(a.unlock_at(120).is_none());
    assert!(a.unlock_at(0).is_none());
    assert_eq!((a.locked_until, a.version), before);
}

#[test]
fn refresher_releases_once_on_shutdown() {
    let (s, a) = refresher_step(RefresherState::Running, RefresherEvent::Tick);
    assert_eq!((s, a), (RefresherState::Running, RefresherAction::Refresh));
    let (s, a) = refresher_step(s, RefresherEvent::Refreshed);
    assert_eq!((s, a), (RefresherState::Running, RefresherAction::Wait));
    let (s, a) = refresher_step(s, RefresherEvent::ShutdownRequested);
    assert_eq!((s, a), (RefresherState::Stopped, RefresherAction::ReleaseAndStop));
    let (s, a) = refresher_step(s, RefresherEvent::ShutdownRequested);
    assert_eq!((s, a), (RefresherState::Stopped, RefresherAction::Stop));
    let (s, a) = refresher_step(RefresherState::Running, RefresherEvent::RefreshFailed);
    assert_eq!((s, a), (RefresherState::Stopped, RefresherAction::Stop));
    let (_, a) = refresher_step(s, RefresherEvent::Tick);
    assert_eq!(a, RefresherAction::Stop);
}

#[test]
fn locking_store_refuses_a_live_foreign_lock() {
    let held = LockData { locked_until: 100, instance_id: "other".to_string() };
    match locking_store::TimeLock::new_at("me".to_string(), held, 3, 99) {
        Err(LockError::HeldBy(id)) => assert_eq!(id, "other"),
        _ => panic!("a live lock of another instance was taken"),
    }
    let held = LockData { locked_until: 100, instance_id: "other".to_string() };
    let tl = locking_store::TimeLock::new_at("me".to_string(), held, 3, 100).unwrap();
    assert_eq!(tl.locked_until, 0);
    assert_eq!(tl.version, 3);
    let own = LockData { locked_until: 100, instance_id: "me".to_string() };
    assert!(locking_store::TimeLock::new_at("me".to_string(), own, 3, 50).is_ok());
}

#[test]
fn locking_store_lock_cycle() {
    let mut tl = locking_store::TimeLock::new_at("me".to_string(), LockData::unlocked(), 0, 10).unwrap();
    assert!(!tl.is_locked_at(10));
    assert!(matches!(tl.ensure_locked_at(10), Err(LockError::NotAcquired)));
    let (data, version) = tl.next_lock_at(10);
    assert_eq!(data.locked_until, 70);
    assert_eq!(data.instance_id, "me");
    assert_eq!(version, 0);
    assert_eq!(data.encode(), b"70/me".to_vec());
    tl.confirm_lock(&data, version);
    assert_eq!(tl.version, 1);
    assert!(tl.is_locked_at(69));
    assert!(tl.ensure_locked_at(69).is_ok());
    assert!(!tl.is_locked_at(70));

    let stored = LockData::decode(data.encode()).unwrap();
    assert!(locking_store::TimeLock::new_at("other".to_string(), stored, 1, 69).is_err());
    let stored = LockData::decode(data.encode()).unwrap();
    assert!(locking_store::TimeLock::new_at("other".to_string(), stored, 1, 70).is_ok());

    let (released, v) = tl.unlock_at(20).unwrap();
    assert_eq!(released.locked_until, 0);
    assert_eq!(v, 1);
    assert!(tl.unlock_at(20).is_none());
    let stored = LockData::decode(released.encode()).unwrap();
    assert!(locking_store::TimeLock::new_at("other".to_string(), stored, 2, 0).is_ok());
}

#[test]
fn locking_store_clock_reading_versions() {
    let mut tl = locking_store::TimeLock::new("me".to_string(), LockData::unlocked(), 5).unwrap();
    assert!(!tl.is_locked());
    assert!(tl.ensure_locked().is_err());
    let (data, version) = tl.next_lock();
    assert_eq!(version, 5);
    tl.confirm_lock(&data, version);
    assert!(tl.is_locked());
    assert!(tl.ensure_locked().is_ok());
    assert!(tl.unlock().is_some());
    assert!(!tl.is_locked());
    tl.update_lock(0, 9);
    assert_eq!(tl.version, 9);
}

#[test]
fn read_lock_record_defaults() {
    let (d, v) = read_lock_record(None).unwrap();
    assert_eq!((d.locked_until, d.instance_id.as_str(), v), (0, "", 0));
    assert!(matches!(read_lock_record(Some((Vec::new(), 4))), Err(LockError::Unreadable(LockDataError::Empty))));
    let (d, v) = read_lock_record(Some((b"77/x".to_vec(), 8))).unwrap();
    assert_eq!((d.locked_until, d.instance_id.as_str(), v), (77, "x", 8));
    assert!(matches!(read_lock_record(Some((b"x/y".to_vec(), 1))), Err(LockError::Unreadable(_))));
    assert_eq!(locking_store::lock_key(), "lock");
    assert_eq!(vss_lock::lock_key(), "lock");
}

#[test]
fn read_time_lock_from_lookup() {
    let t = read_time_lock("me".to_string(), None).unwrap();
    assert_eq!((t.locked_for_instance_id.as_str(), t.locked_until, t.version), ("", 0, 0));
    let kv = KeyValue { key: "lock".to_string(), version: 6, value: b"300/other".to_vec() };
    let t = read_time_lock("me".to_string(), Some(kv)).unwrap();
    assert_eq!((t.locked_for_instance_id.as_str(), t.locked_until, t.version), ("other", 300, 6));
    assert!(t.is_foreign_locked_at(299));
    let kv = KeyValue { key: "lock".to_string(), version: 6, value: Vec::new() };
    assert!(matches!(read_time_lock("me".to_string(), Some(kv)), Err(LockDataError::Empty)));
}

#[test]
fn locking_store_takes_released_record_at_any_time() {
    let released = LockData { locked_until: 0, instance_id: "other".to_string() };
    let tl = locking_store::TimeLock::new("me".to_string(), released, 7).unwrap();
    assert_eq!((tl.locked_until, tl.version), (0, 7));
    let released = LockData { locked_until: 0, instance_id: "other".to_string() };
    assert!(locking_store::TimeLock::new_at("me".to_string(), released, 7, 0).is_ok());
    let (d, v) = read_lock_record(None).unwrap();
    assert!(locking_store::TimeLock::new("me".to_string(), d, v).is_ok());
    let held = LockData { locked_until: u64::MAX, instance_id: "other".to_string() };
    assert!(matches!(locking_store::TimeLock::new("me".to_string(), held, 7), Err(LockError::HeldBy(_))));
}
