//! What a versioned store on a VSS server is asked, and how its answers are read.
use vstd::prelude::*;

verus! {

/// A versioned key/value record as the VSS server keeps it.
#[derive(Debug)]
pub struct KeyValue {
    pub key: String,
    pub version: i64,
    pub value: Vec<u8>,
}

pub struct KeyValueView {
    pub key: Seq<char>,
    pub version: i64,
    pub value: Seq<u8>,
}

impl View for KeyValue {
    type V = KeyValueView;

    open spec fn view(&self) -> KeyValueView {
        KeyValueView { key: self.key@, version: self.version, value: self.value@ }
    }
}

/// Why a request to the VSS server failed.
#[derive(Debug)]
pub enum VssFailure {
    /// The server holds no record under the key.
    NoSuchKey(String),
    /// Any other failure, described.
    Other(String),
}

/// What a lookup of one key gives: a missing record, whether the server answers with no
/// value or with "no such key", is no error.
pub fn stored_value(response: Result<Option<KeyValue>, VssFailure>) -> (r: Result<
    Option<(Vec<u8>, i64)>,
    VssFailure,
>)
    ensures
        match response {
            Ok(Some(kv)) => match r {
                Ok(Some((value, version))) => value@ == kv.value@ && version == kv.version,
                _ => false,
            },
            Ok(None) => r matches Ok(None),
            Err(VssFailure::NoSuchKey(_)) => r matches Ok(None),
            Err(VssFailure::Other(msg)) => match r {
                Err(VssFailure::Other(m)) => m@ == msg@,
                _ => false,
            },
        },
{
    match response {
        Ok(Some(kv)) => Ok(Some((kv.value, kv.version))),
        Ok(None) => Ok(None),
        Err(VssFailure::NoSuchKey(_)) => Ok(None),
        Err(VssFailure::Other(msg)) => Err(VssFailure::Other(msg)),
    }
}

/// The record that a write of `value` over the record of `version` sends.
pub fn put_item(key: String, value: &[u8], version: i64) -> (kv: KeyValue)
    ensures
        kv@ == (KeyValueView { key: key@, version, value: value@ }),
{
    let mut v: Vec<u8> = Vec::new();
    let mut i: usize = 0;
    while i < value.len()
        invariant
            i <= value@.len(),
            v@ == value@.subrange(0, i as int),
        decreases value@.len() - i,
    {
        v.push(value[i]);
        i = i + 1;
        assert(v@ =~= value@.subrange(0, i as int));
    }
    assert(value@.subrange(0, i as int) =~= value@);
    KeyValue { key, version, value: v }
}

/// The record that a deletion sends: version -1 deletes whatever version is stored.
pub fn delete_item(key: String) -> (kv: KeyValue)
    ensures
        kv@ == (KeyValueView { key: key@, version: -1i64, value: Seq::empty() }),
{
    KeyValue { key, version: -1, value: Vec::new() }
}

/// The page to ask for after a page of a key listing: none when the server gave no token
/// or an empty one.
pub fn next_page_token(token: Option<String>) -> (r: Option<String>)
    ensures
        match token {
            Some(t) => if t@.len() == 0 { r is None } else { r == Some(t) },
            None => r is None,
        },
{
    match token {
        Some(t) => if t.as_str().is_empty() {
            None
        } else {
            Some(t)
        },
        None => None,
    }
}

/// Appends the keys and versions of one page of a listing to those gathered so far.
pub fn append_key_versions(versions: &mut Vec<(String, i64)>, page: Vec<KeyValue>)
    ensures
        final(versions)@.len() == old(versions)@.len() + page@.len(),
        forall|i: int| 0 <= i < old(versions)@.len() ==> #[trigger] final(versions)@[i] == old(versions)@[i],
        forall|i: int| 0 <= i < page@.len() ==> {
            &&& (#[trigger] final(versions)@[old(versions)@.len() + i]).0@ == page@[i].key@
            &&& final(versions)@[old(versions)@.len() + i].1 == page@[i].version
        },
{
    let ghost start = versions@;
    let ghost items = page@;
    let mut page = page;
    let mut rest: Vec<(String, i64)> = Vec::new();
    while page.len() > 0
        invariant
            page@.len() + rest@.len() == items.len(),
            page@ == items.subrange(0, page@.len() as int),
            forall|i: int| 0 <= i < rest@.len() ==> {
                &&& (#[trigger] rest@[i]).0@ == items[items.len() - 1 - i].key@
                &&& rest@[i].1 == items[items.len() - 1 - i].version
            },
        decreases page@.len(),
    {
        let kv = page.pop().unwrap();
        rest.push((kv.key, kv.version));
        assert(page@ =~= items.subrange(0, page@.len() as int));
    }
    let ghost n = rest@.len();
    while rest.len() > 0
        invariant
            versions@.len() + rest@.len() == start.len() + items.len(),
            n == items.len(),
            versions@.len() >= start.len(),
            forall|i: int| 0 <= i < start.len() ==> #[trigger] versions@[i] == start[i],
            forall|i: int| start.len() <= i < versions@.len() ==> {
                &&& (#[trigger] versions@[i]).0@ == items[i - start.len()].key@
                &&& versions@[i].1 == items[i - start.len()].version
            },
            forall|i: int| 0 <= i < rest@.len() ==> {
                &&& (#[trigger] rest@[i]).0@ == items[items.len() - 1 - i].key@
                &&& rest@[i].1 == items[items.len() - 1 - i].version
            },
        decreases rest@.len(),
    {
        let item = rest.pop().unwrap();
        versions.push(item);
    }
}

} // verus!
