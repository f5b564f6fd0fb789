//! Backups kept under one key of a versioned store, named after the wallet seed: the
//! store's version of the record is the backup's generation.
use vstd::prelude::*;
use vstd::utf8::*;
use crate::digest::{sha256, sha256_digest};
use crate::text::{hex, hex_encoding};

verus! {

broadcast use vstd::string::group_string_axioms;

/// The lowercase hex of the SHA-256 digest of the seed, which names the seed's stores.
pub open spec fn seed_hash_view(seed: Seq<u8>) -> Seq<char> {
    decode_utf8(hex_encoding(sha256_digest(seed)))
}

/// The lowercase hex of the SHA-256 digest of the seed.
pub fn seed_hash(seed: &[u8]) -> (r: String)
    ensures
        r@ == seed_hash_view(seed@),
{
    let digest = sha256(seed);
    let r = hex(digest.as_slice());
    proof {
        encode_utf8_decode_utf8(r@);
    }
    r
}

/// The id of the store `name` that belongs to the seed whose hash is `seed_hash`.
pub fn store_id(seed_hash: &str, name: &str) -> (r: String)
    ensures
        r@ == seed_hash@ + seq!['/'] + name@,
{
    let mut r = seed_hash.to_string();
    r.append("/");
    r.append(name);
    proof {
        reveal_strlit("/");
        assert(r@ =~= seed_hash@ + seq!['/'] + name@);
    }
    r
}

/// The id of the store that keeps the backups of the seed.
pub fn backup_store_id(seed: &[u8]) -> (r: String)
    ensures
        r@ == seed_hash_view(seed@) + seq!['/'] + "backups"@,
{
    let h = seed_hash(seed);
    store_id(h.as_str(), "backups")
}

/// The key under which the backup is kept.
pub fn backup_key() -> (k: String)
    ensures
        k@ == "backup"@,
{
    "backup".to_string()
}

/// A backup and its generation.
pub struct BackupState {
    pub generation: u64,
    pub data: Vec<u8>,
}

/// The backup that a pull reports, as its generation and data, from what the store holds
/// under the backup key (its value and version): the generation is the stored version.
pub open spec fn pulled_backup(stored: Option<(Seq<u8>, i64)>) -> Option<(u64, Seq<u8>)> {
    match stored {
        Some((data, version)) => Some((version as u64, data)),
        None => None,
    }
}

/// The version that a push of the backup of `generation` replaces (generation 0 when none
/// is given).
pub open spec fn push_version_of(generation: Option<u64>) -> i64 {
    match generation {
        Some(g) => g as i64,
        None => 0i64,
    }
}

/// The generation that a push over the record of `version` reports.
pub open spec fn pushed_generation_of(version: i64) -> u64 {
    (version + 1) as u64
}

/// The backup that a pull reports, from what the store holds under the backup key: its
/// generation is the stored version.
pub fn backup_state_from(stored: Option<(Vec<u8>, i64)>) -> (r: Option<BackupState>)
    ensures
        pulled_backup(match stored {
            Some((data, version)) => Some((data@, version)),
            None => None,
        }) == match r {
            Some(b) => Some((b.generation, b.data@)),
            None => None::<(u64, Seq<u8>)>,
        },
{
    match stored {
        Some((data, version)) => Some(BackupState { generation: version as u64, data }),
        None => None,
    }
}

/// The version that a push of the backup of `generation` replaces (generation 0 when none
/// is given).
pub fn push_version(generation: Option<u64>) -> (r: i64)
    ensures
        r == push_version_of(generation),
{
    match generation {
        Some(g) => g as i64,
        None => 0,
    }
}

/// The generation that a push over the record of `version` reports.
pub fn pushed_generation(version: i64) -> (r: u64)
    requires
        version < i64::MAX,
    ensures
        r == pushed_generation_of(version),
{
    (version + 1) as u64
}

/// A pull after a push reports what the push wrote, under the generation the push reported:
/// a push of `data` for `generation` writes over the version `push_version_of(generation)`,
/// the store then keeps `data` at the next version, and a pull of that record gives the
/// generation `pushed_generation_of` reported, with `data`. A store that holds no backup is
/// pulled as none.
pub proof fn lemma_push_then_pull(generation: Option<u64>, data: Seq<u8>)
    requires
        push_version_of(generation) < i64::MAX,
    ensures
        ({
            let v = push_version_of(generation);
            pulled_backup(Some((data, (v + 1) as i64))) == Some((pushed_generation_of(v), data))
        }),
        pulled_backup(None) is None,
{
}

} // verus!
