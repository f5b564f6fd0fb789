//! The lock that one instance holds on a remote VSS store: a record under the key
//! `"lock"`, written with the store's optimistic versioning.
use vstd::prelude::*;
use crate::clock::{expiry_after, lock_expiry, now_secs};
use crate::vss_store::{KeyValue, KeyValueView, VssFailure};
use crate::lock_data::{decoding, encoding, lemma_decode_encode, LockData, LockDataError, LockDataView, LockError};

verus! {

broadcast use vstd::string::group_string_axioms;

/// The key under which the lock record is kept.
pub open spec fn lock_key_view() -> Seq<char> {
    "lock"@
}

/// The key under which the lock record is kept.
pub fn lock_key() -> (k: String)
    ensures
        k@ == lock_key_view(),
{
    "lock".to_string()
}

/// What this instance knows of the lock: who holds it, until when, and the version of the
/// record that the next write replaces.
pub struct TimeLock {
    pub local_instance_id: String,
    pub locked_for_instance_id: String,
    /// Expiry, in whole seconds since the Unix epoch.
    pub locked_until: u64,
    pub version: i64,
}

pub struct TimeLockView {
    pub local_instance_id: Seq<char>,
    pub locked_for_instance_id: Seq<char>,
    pub locked_until: u64,
    pub version: i64,
}

impl View for TimeLock {
    type V = TimeLockView;

    open spec fn view(&self) -> TimeLockView {
        TimeLockView {
            local_instance_id: self.local_instance_id@,
            locked_for_instance_id: self.locked_for_instance_id@,
            locked_until: self.locked_until,
            version: self.version,
        }
    }
}

impl TimeLockView {
    /// This instance holds the lock at `now`.
    pub open spec fn is_local_locked_at(self, now: u64) -> bool {
        now < self.locked_until && self.local_instance_id == self.locked_for_instance_id
    }

    /// Another instance holds the lock at `now`.
    pub open spec fn is_foreign_locked_at(self, now: u64) -> bool {
        now < self.locked_until && self.local_instance_id != self.locked_for_instance_id
    }

    /// The record that claims the lock for this instance until `locked_until`.
    pub open spec fn record(self, locked_until: u64) -> KeyValueView {
        KeyValueView {
            key: lock_key_view(),
            version: self.version,
            value: encoding(
                LockDataView { locked_until, instance_id: self.local_instance_id },
            ),
        }
    }

    /// The state after this instance wrote `record(locked_until)`.
    pub open spec fn updated(self, locked_until: u64) -> TimeLockView {
        TimeLockView {
            local_instance_id: self.local_instance_id,
            locked_for_instance_id: self.local_instance_id,
            locked_until,
            version: (self.version + 1) as i64,
        }
    }
}

/// The lock state of `instance_id` when the store holds no lock record: nobody holds the
/// lock, and the first record is written over version 0.
pub open spec fn unrecorded_view(instance_id: Seq<char>) -> TimeLockView {
    TimeLockView {
        local_instance_id: instance_id,
        locked_for_instance_id: Seq::empty(),
        locked_until: 0,
        version: 0,
    }
}

/// What taking the lock at `now` does: the new state and the record to write, or no record
/// (and no change) while another instance holds the lock.
pub open spec fn lock_step(v: TimeLockView, now: u64) -> (TimeLockView, Option<KeyValueView>) {
    if v.is_foreign_locked_at(now) {
        (v, None)
    } else {
        (v.updated(lock_expiry(now)), Some(v.record(lock_expiry(now))))
    }
}

/// What releasing the lock at `now` does: the new state and the record to write, or no record
/// (and no change) unless this instance holds the lock.
pub open spec fn unlock_step(v: TimeLockView, now: u64) -> (TimeLockView, Option<KeyValueView>) {
    if v.is_local_locked_at(now) {
        (v.updated(0), Some(v.record(0)))
    } else {
        (v, None)
    }
}

/// The lock state that `instance_id` reads from the stored record `kv`.
pub open spec fn time_lock_from(instance_id: Seq<char>, kv: KeyValueView) -> Result<
    TimeLockView,
    LockDataError,
> {
    match decoding(kv.value) {
        Ok(d) => Ok(
            TimeLockView {
                local_instance_id: instance_id,
                locked_for_instance_id: d.instance_id,
                locked_until: d.locked_until,
                version: kv.version,
            },
        ),
        Err(e) => Err(e),
    }
}

impl TimeLock {
    /// The lock state of `instance_id` when the store holds no lock record.
    pub fn without_record(instance_id: String) -> (t: TimeLock)
        ensures
            t@ == unrecorded_view(instance_id@),
    {
        TimeLock { local_instance_id: instance_id, locked_for_instance_id: String::new(), locked_until: 0, version: 0 }
    }

    /// The lock state of `instance_id`, read from the latest stored lock record; refused when
    /// the record cannot be read.
    pub fn new(instance_id: String, latest_key_value: KeyValue) -> (r: Result<TimeLock, LockDataError>)
        ensures
            match r {
                Ok(t) => time_lock_from(instance_id@, latest_key_value@) == Ok::<
                    TimeLockView,
                    LockDataError,
                >(t@),
                Err(e) => time_lock_from(instance_id@, latest_key_value@) == Err::<
                    TimeLockView,
                    LockDataError,
                >(e),
            },
    {
        let KeyValue { key: _, version, value } = latest_key_value;
        match LockData::decode(value) {
            Ok(lock_data) => Ok(
                TimeLock {
                    local_instance_id: instance_id,
                    locked_for_instance_id: lock_data.instance_id,
                    locked_until: lock_data.locked_until,
                    version,
                },
            ),
            Err(e) => Err(e),
        }
    }

    pub fn is_local_locked_at(&self, now: u64) -> (r: bool)
        ensures
            r == self@.is_local_locked_at(now),
    {
        now < self.locked_until && self.local_instance_id == self.locked_for_instance_id
    }

    pub fn is_foreign_locked_at(&self, now: u64) -> (r: bool)
        ensures
            r == self@.is_foreign_locked_at(now),
    {
        now < self.locked_until && self.local_instance_id != self.locked_for_instance_id
    }

    /// Whether this instance holds the lock now.
    pub fn is_local_locked(&self) -> (r: bool)
        ensures
            r ==> self@.local_instance_id == self@.locked_for_instance_id,
            r ==> self@.locked_until > 0,
    {
        let now = now_secs();
        self.is_local_locked_at(now)
    }

    /// Whether another instance holds the lock now.
    pub fn is_foreign_locked(&self) -> (r: bool)
        ensures
            r ==> self@.local_instance_id != self@.locked_for_instance_id,
            r ==> self@.locked_until > 0,
    {
        let now = now_secs();
        self.is_foreign_locked_at(now)
    }

    /// Claims the lock for this instance until `locked_until` and gives the record to write.
    pub fn update_lock(&mut self, locked_until: u64) -> (kv: KeyValue)
        requires
            old(self)@.version < i64::MAX,
        ensures
            kv@ == old(self)@.record(locked_until),
            final(self)@ == old(self)@.updated(locked_until),
    {
        let lock_data = LockData { locked_until, instance_id: self.local_instance_id.clone() };
        let key_value = KeyValue {
            key: lock_key(),
            version: self.version,
            value: lock_data.encode(),
        };
        self.version = self.version + 1;
        self.locked_for_instance_id = self.local_instance_id.clone();
        self.locked_until = locked_until;
        key_value
    }

    /// Takes or refreshes the lock at `now` for the lock duration, unless another instance
    /// holds it.
    pub fn lock_at(&mut self, now: u64) -> (r: Result<KeyValue, LockError>)
        requires
            !old(self)@.is_foreign_locked_at(now) ==> old(self)@.version < i64::MAX,
        ensures
            old(self)@.is_foreign_locked_at(now) ==> final(self)@ == old(self)@ && match r {
                Err(LockError::HeldBy(id)) => id@ == old(self)@.locked_for_instance_id,
                _ => false,
            },
            !old(self)@.is_foreign_locked_at(now) ==> match r {
                Ok(kv) => kv@ == old(self)@.record(lock_expiry(now)) && final(self)@ == old(
                    self,
                )@.updated(lock_expiry(now)),
                _ => false,
            },
            lock_step(old(self)@, now) == (final(self)@, match r {
                Ok(kv) => Some(kv@),
                Err(_) => None::<KeyValueView>,
            }),
    {
        if self.is_foreign_locked_at(now) {
            return Err(LockError::HeldBy(self.locked_for_instance_id.clone()));
        }
        let until = expiry_after(now);
        Ok(self.update_lock(until))
    }

    /// Takes or refreshes the lock now, unless another instance holds it.
    pub fn lock(&mut self) -> (r: Result<KeyValue, LockError>)
        requires
            old(self)@.version < i64::MAX,
        ensures
            match r {
                Ok(kv) => exists|now: u64|
                    !old(self)@.is_foreign_locked_at(now) && kv@ == old(self)@.record(
                        lock_expiry(now),
                    ) && final(self)@ == old(self)@.updated(lock_expiry(now)),
                Err(LockError::HeldBy(id)) => id@ == old(self)@.locked_for_instance_id
                    && final(self)@ == old(self)@ && old(self)@.local_instance_id
                    != old(self)@.locked_for_instance_id && old(self)@.locked_until > 0,
                Err(_) => false,
            },
            exists|now: u64| #[trigger] lock_step(old(self)@, now) == (final(self)@, match r {
                Ok(kv) => Some(kv@),
                Err(_) => None::<KeyValueView>,
            }),
    {
        let now = now_secs();
        self.lock_at(now)
    }

    /// Releases the lock at `now` if this instance holds it, giving the record to write.
    pub fn unlock_at(&mut self, now: u64) -> (r: Option<KeyValue>)
        requires
            old(self)@.is_local_locked_at(now) ==> old(self)@.version < i64::MAX,
        ensures
            old(self)@.is_local_locked_at(now) ==> match r {
                Some(kv) => kv@ == old(self)@.record(0) && final(self)@ == old(self)@.updated(0),
                None => false,
            },
            !old(self)@.is_local_locked_at(now) ==> r is None && final(self)@ == old(self)@,
            unlock_step(old(self)@, now) == (final(self)@, match r {
                Some(kv) => Some(kv@),
                None => None::<KeyValueView>,
            }),
    {
        if self.is_local_locked_at(now) {
            Some(self.update_lock(0))
        } else {
            None
        }
    }

    /// Releases the lock now if this instance holds it.
    pub fn unlock(&mut self) -> (r: Option<KeyValue>)
        requires
            old(self)@.local_instance_id == old(self)@.locked_for_instance_id && old(self)@.locked_until
                > 0 ==> old(self)@.version < i64::MAX,
        ensures
            match r {
                Some(kv) => old(self)@.local_instance_id == old(self)@.locked_for_instance_id
                    && old(self)@.locked_until > 0 && kv@ == old(self)@.record(0) && final(self)@
                    == old(self)@.updated(0),
                None => final(self)@ == old(self)@,
            },
            exists|now: u64| #[trigger] unlock_step(old(self)@, now) == (final(self)@, match r {
                Some(kv) => Some(kv@),
                None => None::<KeyValueView>,
            }),
    {
        let now = now_secs();
        self.unlock_at(now)
    }
}

/// The latest lock record from a lookup of the lock key: none when the store holds no record
/// (whether it answers with no value or with "no such key").
pub fn latest_lock_record(response: Result<Option<KeyValue>, VssFailure>) -> (r: Result<
    Option<KeyValue>,
    VssFailure,
>)
    ensures
        match response {
            Ok(Some(kv)) => match r {
                Ok(Some(rk)) => rk@ == kv@,
                _ => false,
            },
            Ok(None) | Err(VssFailure::NoSuchKey(_)) => r matches Ok(None),
            Err(VssFailure::Other(msg)) => match r {
                Err(VssFailure::Other(m)) => m@ == msg@,
                _ => false,
            },
        },
{
    match response {
        Ok(Some(kv)) => Ok(Some(kv)),
        Ok(None) => Ok(None),
        Err(VssFailure::NoSuchKey(_)) => Ok(None),
        Err(VssFailure::Other(msg)) => Err(VssFailure::Other(msg)),
    }
}

/// The lock state of `instance_id` from the latest lock record that the store holds: free at
/// version 0 when it holds none, else read from the record, and refused when the record
/// cannot be read.
pub fn read_time_lock(instance_id: String, latest: Option<KeyValue>) -> (r: Result<TimeLock, LockDataError>)
    ensures
        match latest {
            None => match r {
                Ok(t) => t@ == unrecorded_view(instance_id@),
                Err(_) => false,
            },
            Some(kv) => match r {
                Ok(t) => time_lock_from(instance_id@, kv@) == Ok::<TimeLockView, LockDataError>(t@),
                Err(e) => time_lock_from(instance_id@, kv@) == Err::<TimeLockView, LockDataError>(e),
            },
        },
{
    match latest {
        Some(kv) => TimeLock::new(instance_id, kv),
        None => Ok(TimeLock::without_record(instance_id)),
    }
}

/// One call on a lock state, with the clock reading it was made at.
pub enum LockCall {
    Lock { now: u64 },
    Unlock { now: u64 },
    Update { locked_until: u64 },
}

/// What one call does: the new state and the record it gives to write, if any.
pub open spec fn call_step(v: TimeLockView, c: LockCall) -> (TimeLockView, Option<KeyValueView>) {
    match c {
        LockCall::Lock { now } => lock_step(v, now),
        LockCall::Unlock { now } => unlock_step(v, now),
        LockCall::Update { locked_until } => (v.updated(locked_until), Some(v.record(locked_until))),
    }
}

/// The state after a sequence of calls, and the records they gave, in call order.
pub open spec fn run_calls(v: TimeLockView, calls: Seq<LockCall>) -> (TimeLockView, Seq<KeyValueView>)
    decreases calls.len(),
{
    if calls.len() == 0 {
        (v, seq![])
    } else {
        let (next, out) = call_step(v, calls[0]);
        let (last, records) = run_calls(next, calls.drop_first());
        (
            last,
            match out {
                Some(kv) => seq![kv] + records,
                None => records,
            },
        )
    }
}

/// Lock versions count up by one for each record written: over any sequence of calls, the
/// records carry the versions `v, v + 1, ...` in call order, and the state ends at `v` plus
/// the number of records; calls that give no record leave the version alone. The last
/// version must fit in an `i64`.
pub proof fn lemma_lock_versions_count_up(v: TimeLockView, calls: Seq<LockCall>)
    requires
        v.version + run_calls(v, calls).1.len() <= i64::MAX,
    ensures
        ({
            let (last, records) = run_calls(v, calls);
            &&& last.version == v.version + records.len()
            &&& forall|i: int| 0 <= i < records.len() ==> #[trigger] records[i].version == v.version + i
            &&& last.local_instance_id == v.local_instance_id
        }),
    decreases calls.len(),
{
    if calls.len() > 0 {
        let (next, out) = call_step(v, calls[0]);
        assert(out is None ==> next == v);
        lemma_lock_versions_count_up(next, calls.drop_first());
        let (last, records) = run_calls(next, calls.drop_first());
        match out {
            Some(kv) => {
                let all = seq![kv] + records;
                assert forall|i: int| 0 <= i < all.len() implies #[trigger] all[i].version == v.version + i by {
                    if i > 0 {
                        assert(all[i] == records[i - 1]);
                    }
                }
            },
            None => {},
        }
    }
}

/// A release does not repeat: after a release, the instance no longer holds the lock at the
/// time of the release, and a second release gives no record and changes nothing, whatever
/// the time when the first one released the lock, and at any later time when it did not.
pub proof fn lemma_second_unlock_releases_nothing(v: TimeLockView, t1: u64, t2: u64)
    ensures
        ({
            let (after, first) = unlock_step(v, t1);
            &&& !after.is_local_locked_at(t1)
            &&& (first is Some || t1 <= t2) ==> unlock_step(after, t2) == (after, None::<KeyValueView>)
        }),
{
}

/// A record written by a lock that succeeded keeps every other instance out until it
/// expires: an instance other than the writer that reads the record at any time before the
/// expiry finds the lock held by the writer, so its own `lock_at` is refused.
pub proof fn lemma_lock_record_excludes_others(
    holder: TimeLockView,
    other: Seq<char>,
    now: u64,
    t: u64,
)
    requires
        other != holder.local_instance_id,
        t < lock_expiry(now),
    ensures
        match time_lock_from(other, holder.record(lock_expiry(now))) {
            Ok(v) => v.is_foreign_locked_at(t) && v.locked_for_instance_id
                == holder.local_instance_id && v.locked_until == lock_expiry(now),
            Err(_) => false,
        },
{
    let d = LockDataView { locked_until: lock_expiry(now), instance_id: holder.local_instance_id };
    lemma_decode_encode(d);
}

/// The instance that took the lock holds it at every time before the expiry, both in its own
/// state and when it reads its record back (as after a restart), so its next `lock_at`
/// refreshes the lock.
pub proof fn lemma_lock_record_keeps_holder(holder: TimeLockView, now: u64, t: u64)
    requires
        t < lock_expiry(now),
    ensures
        holder.updated(lock_expiry(now)).is_local_locked_at(t),
        match time_lock_from(holder.local_instance_id, holder.record(lock_expiry(now))) {
            Ok(v) => v.is_local_locked_at(t) && !v.is_foreign_locked_at(t),
            Err(_) => false,
        },
{
    let d = LockDataView { locked_until: lock_expiry(now), instance_id: holder.local_instance_id };
    lemma_decode_encode(d);
}

/// Once released, the lock is held by nobody: the releasing instance no longer holds it,
/// and every instance that reads the release record finds it free at every time.
pub proof fn lemma_unlock_record_frees(holder: TimeLockView, reader: Seq<char>, t: u64)
    ensures
        !holder.updated(0).is_local_locked_at(t),
        !holder.updated(0).is_foreign_locked_at(t),
        match time_lock_from(reader, holder.record(0)) {
            Ok(v) => !v.is_foreign_locked_at(t) && !v.is_local_locked_at(t),
            Err(_) => false,
        },
{
    let d = LockDataView { locked_until: 0, instance_id: holder.local_instance_id };
    lemma_decode_encode(d);
}

/// At no time does an instance find the lock held both by itself and by another.
pub proof fn lemma_local_and_foreign_exclusive(v: TimeLockView, t: u64)
    ensures
        !(v.is_local_locked_at(t) && v.is_foreign_locked_at(t)),
{
}

} // verus!
