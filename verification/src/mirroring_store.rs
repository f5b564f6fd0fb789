//! A local store that mirrors every write to a remote versioned store. Local rows carry a
//! local version and the version last confirmed by the remote; the remote keeps each value
//! under the full key `"<primary namespace>/<secondary namespace>/<key>"`.
use vstd::prelude::*;
use vstd::string::StringSliceAdditionalSpecFns;
use vstd::utf8::*;
use crate::text::{
    find_slash, lemma_encode_char_slash, lemma_encode_no_slash, lemma_encode_utf8_append,
    lemma_slash_pos, lemma_slash_splits, slash_pos, SLASH,
};

verus! {

broadcast use vstd::string::group_string_axioms;

/// The key under which the remote keeps `key` of the two namespaces.
pub open spec fn full_key_view(primary_ns: Seq<char>, secondary_ns: Seq<char>, key: Seq<char>) -> Seq<char> {
    primary_ns + seq!['/'] + secondary_ns + seq!['/'] + key
}

/// The three parts of a full key, as `splitn(3, '/')` finds them: the text before the first
/// `'/'`, the text between the first and the second, and all the rest (further `'/'`
/// included); none when there are fewer than two `'/'`.
pub open spec fn key_parts(b: Seq<u8>) -> Option<(Seq<u8>, Seq<u8>, Seq<u8>)> {
    let i = slash_pos(b);
    if i < b.len() {
        let rest = b.subrange(i as int + 1, b.len() as int);
        let j = slash_pos(rest);
        if j < rest.len() {
            Some((b.subrange(0, i as int), rest.subrange(0, j as int), rest.subrange(j as int + 1, rest.len() as int)))
        } else {
            None
        }
    } else {
        None
    }
}

/// The key under which the remote keeps `key` of the two namespaces.
pub fn full_key(primary_ns: &str, secondary_ns: &str, key: &str) -> (r: String)
    ensures
        r@ == full_key_view(primary_ns@, secondary_ns@, key@),
{
    let mut r = primary_ns.to_string();
    r.append("/");
    r.append(secondary_ns);
    r.append("/");
    r.append(key);
    proof {
        reveal_strlit("/");
        assert(r@ =~= full_key_view(primary_ns@, secondary_ns@, key@));
    }
    r
}

/// Splits a full key into its namespaces and key; none for a key with fewer than two `'/'`.
pub fn split_full_key(full_key: &str) -> (r: Option<(String, String, String)>)
    ensures
        match r {
            Some((p, s, k)) => key_parts(encode_utf8(full_key@)) == Some(
                (encode_utf8(p@), encode_utf8(s@), encode_utf8(k@)),
            ),
            None => key_parts(encode_utf8(full_key@)) is None,
        },
{
    let b: &[u8] = full_key.as_bytes();
    let ghost bytes = b@;
    proof {
        encode_utf8_valid_utf8(full_key@);
    }
    let n = b.len();
    let i = find_slash(b, 0);
    assert(bytes.subrange(0, n as int) =~= bytes);
    if i == n {
        return None;
    }
    let j = find_slash(b, i + 1);
    let ghost rest = bytes.subrange(i + 1, n as int);
    assert(j - (i + 1) == slash_pos(rest));
    if j == n {
        return None;
    }
    proof {
        lemma_slash_splits(bytes, i as int);
        assert(rest[j - (i + 1)] == SLASH);
        lemma_slash_splits(rest, j - (i + 1));
    }
    let (p, tail) = full_key.split_at(i);
    let (_sep, tail) = tail.split_at(1);
    assert(tail.spec_bytes() =~= rest);
    let (s, tail2) = tail.split_at(j - (i + 1));
    let (_sep2, k) = tail2.split_at(1);
    proof {
        encode_utf8_decode_utf8(p@);
        encode_utf8_decode_utf8(s@);
        encode_utf8_decode_utf8(k@);
        assert(k.spec_bytes() =~= rest.subrange(j - (i + 1) + 1, rest.len() as int));
    }
    Some((p.to_owned(), s.to_owned(), k.to_owned()))
}

/// Splitting the full key of a key gives back its namespaces and the key, when neither
/// namespace holds a `'/'` (the key itself may hold any).
pub proof fn lemma_split_full_key(primary_ns: Seq<char>, secondary_ns: Seq<char>, key: Seq<char>)
    requires
        forall|i: int| 0 <= i < primary_ns.len() ==> primary_ns[i] != '/',
        forall|i: int| 0 <= i < secondary_ns.len() ==> secondary_ns[i] != '/',
    ensures
        key_parts(encode_utf8(full_key_view(primary_ns, secondary_ns, key))) == Some(
            (encode_utf8(primary_ns), encode_utf8(secondary_ns), encode_utf8(key)),
        ),
{
    let p = encode_utf8(primary_ns);
    let s = encode_utf8(secondary_ns);
    let k = encode_utf8(key);
    let sl = encode_utf8(seq!['/']);
    lemma_encode_char_slash('/');
    lemma_encode_utf8_append(primary_ns, seq!['/']);
    lemma_encode_utf8_append(primary_ns + seq!['/'], secondary_ns);
    lemma_encode_utf8_append(primary_ns + seq!['/'] + secondary_ns, seq!['/']);
    lemma_encode_utf8_append(primary_ns + seq!['/'] + secondary_ns + seq!['/'], key);
    let b = encode_utf8(full_key_view(primary_ns, secondary_ns, key));
    assert(b =~= p + seq![SLASH] + s + seq![SLASH] + k);
    lemma_encode_no_slash(primary_ns);
    lemma_encode_no_slash(secondary_ns);
    assert forall|t: int| 0 <= t < p.len() implies b[t] != SLASH by {
        assert(b[t] == p[t]);
    }
    lemma_slash_pos(b, p.len() as int);
    let rest = b.subrange(p.len() as int + 1, b.len() as int);
    assert(rest =~= s + seq![SLASH] + k);
    assert forall|t: int| 0 <= t < s.len() implies rest[t] != SLASH by {
        assert(rest[t] == s[t]);
    }
    lemma_slash_pos(rest, s.len() as int);
    assert(b.subrange(0, p.len() as int) =~= p);
    assert(rest.subrange(0, s.len() as int) =~= s);
    assert(rest.subrange(s.len() as int + 1, rest.len() as int) =~= k);
}

/// What a write of a value does to its row and to the remote.
#[derive(Debug, Clone, Copy, PartialEq, Eq, Structural)]
pub enum WritePlan {
    /// The row already holds the value: nothing is written, locally or remotely.
    Unchanged,
    /// A new row is written and sent to the remote with this version.
    Insert { version: i64 },
    /// The row is overwritten and sent to the remote with this version.
    Update { version: i64 },
}

/// The write of `value` over the local row, given as its local version and value.
pub open spec fn planned_write(local: Option<(i64, Seq<u8>)>, value: Seq<u8>) -> WritePlan {
    match local {
        None => WritePlan::Insert { version: 0 },
        Some((version, stored)) => if stored == value {
            WritePlan::Unchanged
        } else {
            WritePlan::Update { version: (version + 1) as i64 }
        },
    }
}

pub open spec fn row_view(local: Option<(i64, Vec<u8>)>) -> Option<(i64, Seq<u8>)> {
    match local {
        Some((version, stored)) => Some((version, stored@)),
        None => None,
    }
}

/// Whether two byte strings are the same.
pub fn same_bytes(a: &[u8], b: &[u8]) -> (r: bool)
    ensures
        r == (a@ == b@),
{
    if a.len() != b.len() {
        return false;
    }
    let mut i: usize = 0;
    while i < a.len()
        invariant
            a@.len() == b@.len(),
            i <= a@.len(),
            forall|t: int| 0 <= t < i ==> a@[t] == b@[t],
        decreases a@.len() - i,
    {
        if a[i] != b[i] {
            return false;
        }
        i = i + 1;
    }
    assert(a@ =~= b@);
    true
}

/// Decides the write of `value`, given the local row (its local version and value).
pub fn plan_write(local: &Option<(i64, Vec<u8>)>, value: &[u8]) -> (r: WritePlan)
    requires
        (match *local {
            Some((version, stored)) => stored@ != value@ ==> version < i64::MAX,
            None => true,
        }),
    ensures
        r == planned_write(row_view(*local), value@),
{
    match local {
        None => WritePlan::Insert { version: 0 },
        Some((version, stored)) => {
            if same_bytes(stored.as_slice(), value) {
                WritePlan::Unchanged
            } else {
                WritePlan::Update { version: *version + 1 }
            }
        },
    }
}

/// The versions that a local row carries: that of its last local write, and the last one
/// that the remote confirmed (-1 while the remote has confirmed none).
#[derive(Debug, Clone, Copy, PartialEq, Eq, Structural)]
pub struct RowVersions {
    pub local_version: i64,
    pub remote_version: i64,
}

impl RowVersions {
    /// The row holds a local write that the remote has not confirmed.
    pub open spec fn is_dirty(self) -> bool {
        self.local_version != self.remote_version
    }

    /// The remote has confirmed no version beyond the local one.
    pub open spec fn is_consistent(self) -> bool {
        self.remote_version <= self.local_version
    }
}

/// The versions of a row after the local write that `plan` decided: a new row is written at
/// its version and is not confirmed yet; an overwritten row takes the new version and keeps
/// the confirmation it had; an unchanged row is left as it is.
pub open spec fn written_versions(row: Option<RowVersions>, plan: WritePlan) -> Option<RowVersions> {
    match plan {
        WritePlan::Unchanged => row,
        WritePlan::Insert { version } => Some(RowVersions { local_version: version, remote_version: -1i64 }),
        WritePlan::Update { version } => Some(
            RowVersions {
                local_version: version,
                remote_version: match row {
                    Some(r) => r.remote_version,
                    None => -1i64,
                },
            },
        ),
    }
}

/// The versions of a row after the local write that `plan` decided.
pub fn versions_after_write(row: Option<RowVersions>, plan: WritePlan) -> (r: Option<RowVersions>)
    ensures
        r == written_versions(row, plan),
{
    match plan {
        WritePlan::Unchanged => row,
        WritePlan::Insert { version } => Some(RowVersions { local_version: version, remote_version: -1 }),
        WritePlan::Update { version } => Some(
            RowVersions {
                local_version: version,
                remote_version: match row {
                    Some(r) => r.remote_version,
                    None => -1,
                },
            },
        ),
    }
}

/// The versions of a row once the remote has accepted its local write.
pub fn confirmed(row: RowVersions) -> (r: RowVersions)
    ensures
        r == (RowVersions { local_version: row.local_version, remote_version: row.local_version }),
{
    RowVersions { local_version: row.local_version, remote_version: row.local_version }
}

/// The versions of a row copied from the remote, which reported `remote_version` for it.
pub fn reconciled_row(remote_version: i64) -> (r: RowVersions)
    requires
        remote_version > i64::MIN,
    ensures
        r.local_version == remote_version - 1,
        r.remote_version == remote_version - 1,
{
    let v = reconciled_version(remote_version);
    RowVersions { local_version: v, remote_version: v }
}

/// A row awaits the remote exactly while a write of a new value is unconfirmed: writing a
/// new value to a consistent row (or a new row) leaves it dirty and consistent, the
/// remote's confirmation makes it clean again, and rewriting the value it holds changes
/// nothing. The version written is the one that the write sends to the remote.
pub proof fn lemma_write_awaits_confirmation(row: Option<RowVersions>, stored: Seq<u8>, value: Seq<u8>)
    requires
        match row {
            Some(r) => r.is_consistent() && r.local_version < i64::MAX,
            None => true,
        },
    ensures
        ({
            let local = match row {
                Some(r) => Some((r.local_version, stored)),
                None => None,
            };
            let plan = planned_write(local, value);
            let after = written_versions(row, plan);
            &&& (row is None || stored != value) ==> match (after, plan) {
                (Some(a), WritePlan::Insert { version }) | (Some(a), WritePlan::Update { version }) => {
                    &&& a.is_dirty()
                    &&& a.is_consistent()
                    &&& a.local_version == version
                    &&& !(RowVersions { local_version: a.local_version, remote_version: a.local_version }).is_dirty()
                },
                _ => false,
            }
            &&& (row is Some && stored == value) ==> plan == WritePlan::Unchanged && after == row
        }),
{
}

/// A row copied from the remote is clean and consistent.
pub proof fn lemma_reconciled_row_clean(remote_version: i64)
    requires
        remote_version > i64::MIN,
    ensures
        ({
            let r = RowVersions { local_version: (remote_version - 1) as i64, remote_version: (remote_version - 1) as i64 };
            !r.is_dirty() && r.is_consistent()
        }),
{
}

/// Whether the local rows must be replaced with the remote's on start: unless this
/// instance was the last to hold the lock and no row awaits the remote's confirmation.
pub fn needs_reconcile(i_was_the_last: bool, dirty_rows: i64) -> (r: bool)
    ensures
        r == (!i_was_the_last || dirty_rows > 0),
{
    !i_was_the_last || dirty_rows > 0
}

/// The version a row copied from the remote keeps, both as local and as confirmed version:
/// one below the remote's, so that the next write of a new value sends the remote's version.
pub fn reconciled_version(remote_version: i64) -> (r: i64)
    requires
        remote_version > i64::MIN,
    ensures
        r == remote_version - 1,
{
    remote_version - 1
}

/// After reconciliation, the first write of a new value to a row copied from the remote
/// sends exactly the version that the remote reported for it; rewriting the value that a row
/// holds never reaches the remote.
pub proof fn lemma_write_after_reconcile(remote_version: i64, stored: Seq<u8>, value: Seq<u8>)
    requires
        remote_version > i64::MIN,
    ensures
        stored != value ==> planned_write(Some(((remote_version - 1) as i64, stored)), value)
            == (WritePlan::Update { version: remote_version }),
        planned_write(Some(((remote_version - 1) as i64, stored)), stored) == WritePlan::Unchanged,
{
}

/// Successive writes of changing values to one row send the versions 0, 1, 2, ...: the
/// n-th change (counting from 0) of a new row is sent with version n.
pub proof fn lemma_versions_count_up(values: Seq<Seq<u8>>)
    requires
        values.len() > 0,
        values.len() <= i64::MAX,
        forall|i: int| #![trigger values[i]] 0 < i < values.len() ==> values[i - 1] != values[i],
    ensures
        planned_write(None, values[0]) == (WritePlan::Insert { version: 0 }),
        forall|i: int| #![trigger values[i]] 0 < i < values.len() ==> planned_write(
            Some(((i - 1) as i64, values[i - 1])),
            values[i],
        ) == (WritePlan::Update { version: i as i64 }),
{
}

} // verus!
