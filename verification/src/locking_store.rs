//! The lock that guards a versioned store shared by several instances: the lock record is
//! kept in the store itself under the key `"lock"`, and every read or write of the store
//! first checks that this instance still holds the lock.
use vstd::prelude::*;
use crate::clock::{expiry_after, lock_expiry, now_secs};
use crate::lock_data::{
    decoding, encoding, lemma_decode_encode, LockData, LockDataError, LockDataView,
    LockError,
};

verus! {

broadcast use vstd::string::group_string_axioms;

/// How often the holder refreshes the lock, well within the lock duration.
pub const REFRESH_PERIOD_SECS: u64 = 10;

/// The key under which the lock record is kept.
pub open spec fn lock_key_view() -> Seq<char> {
    "lock"@
}

/// The key under which the lock record is kept.
pub fn lock_key() -> (k: String)
    ensures
        k@ == lock_key_view(),
{
    "lock".to_string()
}

/// This instance's side of the lock: until when it holds it, and the version of the record
/// that its next write replaces.
pub struct TimeLock {
    pub instance_id: String,
    /// Expiry, in whole seconds since the Unix epoch.
    pub locked_until: u64,
    pub version: i64,
}

pub struct TimeLockView {
    pub instance_id: Seq<char>,
    pub locked_until: u64,
    pub version: i64,
}

impl View for TimeLock {
    type V = TimeLockView;

    open spec fn view(&self) -> TimeLockView {
        TimeLockView {
            instance_id: self.instance_id@,
            locked_until: self.locked_until,
            version: self.version,
        }
    }
}

/// Whether `instance_id` may take the lock at `now`, given the latest stored record: the
/// record is its own, or it has expired. The expiry is a whole second, and the lock is free
/// from that second on, the same instant at which its holder stops counting it as held.
pub open spec fn may_take(instance_id: Seq<char>, latest: LockDataView, now: u64) -> bool {
    instance_id == latest.instance_id || latest.locked_until <= now
}

/// The state of an instance that may take the lock, before it has written its own record.
pub open spec fn fresh_view(instance_id: Seq<char>, latest_version: i64) -> TimeLockView {
    TimeLockView { instance_id, locked_until: 0, version: latest_version }
}

/// What `instance_id` finds at `now` when the latest stored record is `latest`: its fresh
/// state when it may take the lock, else the holder that refuses it.
pub open spec fn taking(instance_id: Seq<char>, latest: LockDataView, latest_version: i64, now: u64) -> Result<
    TimeLockView,
    Seq<char>,
> {
    if may_take(instance_id, latest, now) {
        Ok(fresh_view(instance_id, latest_version))
    } else {
        Err(latest.instance_id)
    }
}

impl TimeLockView {
    pub open spec fn is_locked_at(self, now: u64) -> bool {
        now < self.locked_until
    }

    /// The record that claims the lock for this instance from `now` on.
    pub open spec fn next_lock_at(self, now: u64) -> LockDataView {
        LockDataView { locked_until: lock_expiry(now), instance_id: self.instance_id }
    }
}

impl TimeLock {
    /// The state of `instance_id` at `now`, given the latest stored record and its version;
    /// refused while another instance holds the lock.
    pub fn new_at(instance_id: String, latest_lock_data: LockData, latest_version: i64, now: u64) -> (r: Result<TimeLock, LockError>)
        ensures
            may_take(instance_id@, latest_lock_data@, now) ==> match r {
                Ok(t) => t@ == fresh_view(instance_id@, latest_version),
                Err(_) => false,
            },
            !may_take(instance_id@, latest_lock_data@, now) ==> match r {
                Err(LockError::HeldBy(id)) => id@ == latest_lock_data@.instance_id,
                _ => false,
            },
    {
        let LockData { locked_until, instance_id: remote_instance_id } = latest_lock_data;
        if !(instance_id == remote_instance_id || locked_until <= now) {
            return Err(LockError::HeldBy(remote_instance_id));
        }
        Ok(TimeLock { instance_id, locked_until: 0, version: latest_version })
    }

    /// The state of `instance_id` now, given the latest stored record and its version:
    /// `new_at` at the clock's reading. A record of its own, or one that expired at the epoch
    /// (a released record, or none at all), is taken whatever the clock reads.
    pub fn new(instance_id: String, latest_lock_data: LockData, latest_version: i64) -> (r: Result<TimeLock, LockError>)
        ensures
            instance_id@ == latest_lock_data@.instance_id ==> r is Ok,
            latest_lock_data@.locked_until == 0 ==> r is Ok,
            match r {
                Ok(t) => t@ == fresh_view(instance_id@, latest_version),
                Err(LockError::HeldBy(id)) => id@ == latest_lock_data@.instance_id && instance_id@
                    != latest_lock_data@.instance_id && latest_lock_data@.locked_until > 0,
                Err(_) => false,
            },
            exists|now: u64| #[trigger] taking(instance_id@, latest_lock_data@, latest_version, now) == match r {
                Ok(t) => Ok::<TimeLockView, Seq<char>>(t@),
                Err(LockError::HeldBy(id)) => Err::<TimeLockView, Seq<char>>(id@),
                Err(_) => Err::<TimeLockView, Seq<char>>(Seq::empty()),
            },
    {
        let now = now_secs();
        let ghost latest = latest_lock_data@;
        let ghost id = instance_id@;
        let r = TimeLock::new_at(instance_id, latest_lock_data, latest_version, now);
        assert(taking(id, latest, latest_version, now) == match r {
            Ok(t) => Ok::<TimeLockView, Seq<char>>(t@),
            Err(LockError::HeldBy(h)) => Err::<TimeLockView, Seq<char>>(h@),
            Err(_) => Err::<TimeLockView, Seq<char>>(Seq::empty()),
        });
        r
    }

    pub fn is_locked_at(&self, now: u64) -> (r: bool)
        ensures
            r == self@.is_locked_at(now),
    {
        now < self.locked_until
    }

    /// Whether this instance holds the lock now.
    pub fn is_locked(&self) -> (r: bool)
        ensures
            r ==> self@.locked_until > 0,
    {
        let now = now_secs();
        self.is_locked_at(now)
    }

    /// The record that claims the lock from `now` on, and the version it replaces.
    pub fn next_lock_at(&self, now: u64) -> (r: (LockData, i64))
        ensures
            r.0@ == self@.next_lock_at(now),
            r.1 == self@.version,
    {
        let lock_data = LockData {
            locked_until: expiry_after(now),
            instance_id: self.instance_id.clone(),
        };
        (lock_data, self.version)
    }

    /// The record that claims the lock from now on, and the version it replaces.
    pub fn next_lock(&self) -> (r: (LockData, i64))
        ensures
            exists|now: u64| r.0@ == #[trigger] self@.next_lock_at(now),
            r.0@.instance_id == self@.instance_id,
            r.1 == self@.version,
    {
        let now = now_secs();
        self.next_lock_at(now)
    }

    /// Releases the lock at `now` if this instance holds it, giving the record to write and
    /// the version it replaces.
    pub fn unlock_at(&mut self, now: u64) -> (r: Option<(LockData, i64)>)
        ensures
            old(self)@.is_locked_at(now) ==> match r {
                Some((d, v)) => d@ == (LockDataView { locked_until: 0, instance_id: old(self)@.instance_id })
                    && v == old(self)@.version && final(self)@ == (TimeLockView { locked_until: 0, ..old(self)@ }),
                None => false,
            },
            !old(self)@.is_locked_at(now) ==> r is None && final(self)@ == old(self)@,
    {
        if self.is_locked_at(now) {
            self.locked_until = 0;
            let lock_data = LockData { locked_until: 0, instance_id: self.instance_id.clone() };
            return Some((lock_data, self.version));
        }
        None
    }

    /// Releases the lock now if this instance holds it.
    pub fn unlock(&mut self) -> (r: Option<(LockData, i64)>)
        ensures
            match r {
                Some((d, v)) => old(self)@.locked_until > 0 && d@ == (LockDataView {
                    locked_until: 0,
                    instance_id: old(self)@.instance_id,
                }) && v == old(self)@.version && final(self)@ == (TimeLockView {
                    locked_until: 0,
                    ..old(self)@
                }),
                None => final(self)@ == old(self)@,
            },
    {
        let now = now_secs();
        self.unlock_at(now)
    }

    /// Records that the lock is held until `locked_until`, with `version` as the version of
    /// the record that the next write replaces.
    pub fn update_lock(&mut self, locked_until: u64, version: i64)
        ensures
            final(self)@ == (TimeLockView { locked_until, version, instance_id: old(self)@.instance_id }),
    {
        self.locked_until = locked_until;
        self.version = version;
    }

    /// Records that `lock_data` was written over the record of `written_version`.
    pub fn confirm_lock(&mut self, lock_data: &LockData, written_version: i64)
        requires
            written_version < i64::MAX,
        ensures
            final(self)@ == (TimeLockView {
                locked_until: lock_data.locked_until,
                version: (written_version + 1) as i64,
                instance_id: old(self)@.instance_id,
            }),
    {
        self.update_lock(lock_data.locked_until, written_version + 1);
    }

    /// Succeeds exactly when this instance holds the lock at `now`.
    pub fn ensure_locked_at(&self, now: u64) -> (r: Result<(), LockError>)
        ensures
            self@.is_locked_at(now) ==> r is Ok,
            !self@.is_locked_at(now) ==> r matches Err(LockError::NotAcquired),
    {
        if self.is_locked_at(now) {
            Ok(())
        } else {
            Err(LockError::NotAcquired)
        }
    }

    /// Succeeds when this instance holds the lock now.
    pub fn ensure_locked(&self) -> (r: Result<(), LockError>)
        ensures
            r is Ok ==> self@.locked_until > 0,
            r is Err ==> r matches Err(LockError::NotAcquired),
    {
        let now = now_secs();
        self.ensure_locked_at(now)
    }
}

/// The latest lock record and its version, from what the store holds under the lock key:
/// nothing stored means that nobody holds the lock, at version 0; a stored value must be a
/// readable record.
pub fn read_lock_record(stored: Option<(Vec<u8>, i64)>) -> (r: Result<(LockData, i64), LockError>)
    ensures
        match stored {
            None => match r {
                Ok((d, v)) => d@ == crate::lock_data::unlocked_view() && v == 0,
                Err(_) => false,
            },
            Some((bytes, version)) => match (decoding(bytes@), r) {
                (Ok(d), Ok((rd, rv))) => rd@ == d && rv == version,
                (Err(e), Err(LockError::Unreadable(re))) => re == e,
                _ => false,
            },
        },
{
    match stored {
        None => Ok((LockData::unlocked(), 0)),
        Some((bytes, version)) => match LockData::decode(bytes) {
            Ok(d) => Ok((d, version)),
            Err(e) => Err(LockError::Unreadable(e)),
        },
    }
}

/// A record written by the holder keeps every other instance out until it expires: read
/// back from the store by another instance at any time before the expiry, it refuses that
/// instance the lock.
pub proof fn lemma_lock_record_excludes_others(holder: TimeLockView, other: Seq<char>, now: u64, t: u64)
    requires
        other != holder.instance_id,
        t < lock_expiry(now),
    ensures
        decoding(encoding(holder.next_lock_at(now))) == Ok::<LockDataView, LockDataError>(
            holder.next_lock_at(now),
        ),
        !may_take(other, holder.next_lock_at(now), t),
{
    lemma_decode_encode(holder.next_lock_at(now));
}

/// After confirming a lock taken at `now`, the holder holds it at every time before the
/// expiry, and its own record, read back, lets it take the lock again.
pub proof fn lemma_confirmed_lock_held(holder: TimeLockView, now: u64, version: i64, t: u64)
    requires
        t < lock_expiry(now),
    ensures
        (TimeLockView { locked_until: holder.next_lock_at(now).locked_until, version, ..holder }).is_locked_at(t),
        may_take(holder.instance_id, holder.next_lock_at(now), t),
{
}

/// The record written on release lets every instance take the lock at any time, and the
/// releasing instance no longer holds it.
pub proof fn lemma_release_record_frees(holder: TimeLockView, other: Seq<char>, t: u64)
    ensures
        decoding(encoding(LockDataView { locked_until: 0, instance_id: holder.instance_id }))
            == Ok::<LockDataView, LockDataError>(LockDataView { locked_until: 0, instance_id: holder.instance_id }),
        may_take(other, LockDataView { locked_until: 0, instance_id: holder.instance_id }, t),
        !(TimeLockView { locked_until: 0, ..holder }).is_locked_at(t),
{
    lemma_decode_encode(LockDataView { locked_until: 0, instance_id: holder.instance_id });
}

} // verus!
