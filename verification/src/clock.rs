//! The wall clock, read in whole seconds since the Unix epoch.
use vstd::prelude::*;

verus! {

/// `SystemTime::elapsed` on the Unix epoch: the time the wall clock shows, counted from the
/// epoch, or none for a clock set before the epoch. Nothing is stated of the value: it is
/// whatever the clock shows.
#[verifier::external_body]
fn time_since_epoch() -> (r: Option<std::time::Duration>) {
    match std::time::UNIX_EPOCH.elapsed() {
        Ok(d) => Some(d),
        Err(_) => None,
    }
}

/// `Duration::as_secs`: the whole seconds of `d`. A duration is opaque here, so nothing is
/// stated of the number.
#[verifier::external_body]
fn whole_secs(d: &std::time::Duration) -> (r: u64) {
    d.as_secs()
}

/// The wall clock, in whole seconds since the Unix epoch; a clock set before the epoch reads
/// as the epoch.
pub(crate) fn now_secs() -> (t: u64) {
    match time_since_epoch() {
        Some(d) => whole_secs(&d),
        None => 0,
    }
}

/// How long a lock lasts once it is taken or refreshed.
pub const LOCK_DURATION_SECS: u64 = 60;

/// The expiry of a lock taken at `now`, capped at the last second that a `u64` holds.
pub open spec fn lock_expiry(now: u64) -> u64 {
    if now <= u64::MAX - LOCK_DURATION_SECS {
        (now + LOCK_DURATION_SECS) as u64
    } else {
        u64::MAX
    }
}

/// The expiry of a lock taken at `now`.
pub fn expiry_after(now: u64) -> (t: u64)
    ensures
        t == lock_expiry(now),
{
    now.saturating_add(LOCK_DURATION_SECS)
}

} // verus!
