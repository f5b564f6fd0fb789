//! The lock record that instances sharing one remote store write under the lock key:
//! `"<expiry in seconds since the Unix epoch>/<instance id>"`, as UTF-8 bytes.
use vstd::prelude::*;
use vstd::string::StringSliceAdditionalSpecFns;
use vstd::utf8::*;
use crate::text::{
    decimal, is_digit, lemma_ascii_valid_utf8, lemma_decimal,
    lemma_encode_char_slash, lemma_no_slash_byte_no_slash_char, lemma_slash_char_pos,
    lemma_slash_pos, lemma_slash_pos_facts, lemma_slash_splits, parse_u64, parse_u64_digits,
    push_decimal, slash_char_pos, slash_pos, string_from_utf8, unsigned_digits, SLASH,
};

verus! {

/// The text before the first `'/'`; empty when there is no `'/'`.
pub open spec fn timestamp_field(b: Seq<u8>) -> Seq<u8> {
    if slash_pos(b) < b.len() {
        b.subrange(0, slash_pos(b) as int)
    } else {
        seq![]
    }
}

/// The text after the first `'/'`; empty when there is no `'/'`.
pub open spec fn instance_id_field(b: Seq<u8>) -> Seq<u8> {
    if slash_pos(b) < b.len() {
        b.subrange(slash_pos(b) as int + 1, b.len() as int)
    } else {
        seq![]
    }
}

/// An empty expiry field stands for the epoch itself.
pub open spec fn timestamp_value(t: Seq<u8>) -> Option<u64> {
    if t.len() == 0 {
        Some(0)
    } else {
        parse_u64(t)
    }
}

/// Why a lock record could not be read.
#[derive(Debug, Clone, Copy, PartialEq, Eq, Structural)]
pub enum LockDataError {
    /// The record holds no bytes at all.
    Empty,
    /// The record is not UTF-8 text.
    InvalidUtf8,
    /// The expiry before the first `'/'` is not an unsigned number of seconds.
    InvalidTimestamp,
}

/// Why the lock could not be taken or used.
#[derive(Debug)]
pub enum LockError {
    /// The stored lock record could not be read.
    Unreadable(LockDataError),
    /// Another instance, named here, holds the lock.
    HeldBy(String),
    /// This instance does not hold the lock.
    NotAcquired,
}

/// Who holds the lock, and until when.
#[derive(Debug)]
pub struct LockData {
    /// Expiry of the lock, in whole seconds since the Unix epoch.
    pub locked_until: u64,
    /// The instance that holds the lock.
    pub instance_id: String,
}

pub struct LockDataView {
    pub locked_until: u64,
    pub instance_id: Seq<char>,
}

impl View for LockData {
    type V = LockDataView;

    open spec fn view(&self) -> LockDataView {
        LockDataView { locked_until: self.locked_until, instance_id: self.instance_id@ }
    }
}

/// The record that nobody holds: expired at the epoch, with an empty instance id.
pub open spec fn unlocked_view() -> LockDataView {
    LockDataView { locked_until: 0, instance_id: Seq::empty() }
}

/// The bytes of a lock record.
pub open spec fn encoding(d: LockDataView) -> Seq<u8> {
    decimal(d.locked_until as nat) + seq![SLASH] + encode_utf8(d.instance_id)
}

/// What reading a lock record gives.
pub open spec fn decoding(b: Seq<u8>) -> Result<LockDataView, LockDataError> {
    if b.len() == 0 {
        Err(LockDataError::Empty)
    } else if !valid_utf8(b) {
        Err(LockDataError::InvalidUtf8)
    } else {
        match timestamp_value(timestamp_field(b)) {
            None => Err(LockDataError::InvalidTimestamp),
            Some(t) => Ok(LockDataView { locked_until: t, instance_id: decode_utf8(instance_id_field(b)) }),
        }
    }
}

impl LockData {
    /// The record that nobody holds.
    pub fn unlocked() -> (d: LockData)
        ensures
            d@ == unlocked_view(),
    {
        LockData { locked_until: 0, instance_id: String::new() }
    }

    /// Reads a lock record; the empty record is refused.
    pub fn decode(data: Vec<u8>) -> (r: Result<LockData, LockDataError>)
        ensures
            match r {
                Ok(d) => decoding(data@) == Ok::<LockDataView, LockDataError>(d@),
                Err(e) => decoding(data@) == Err::<LockDataView, LockDataError>(e),
            },
    {
        if data.len() == 0 {
            return Err(LockDataError::Empty);
        }
        let ghost bytes = data@;
        let text = match string_from_utf8(data) {
            Some(t) => t,
            None => return Err(LockDataError::InvalidUtf8),
        };
        let s: &str = text.as_str();
        let b: &[u8] = s.as_bytes();
        proof {
            decode_utf8_encode_utf8(bytes);
        }
        assert(b@ == bytes);
        let n = b.len();
        let mut i: usize = 0;
        while i < n && b[i] != SLASH
            invariant
                i <= n,
                n == b@.len(),
                forall|j: int| 0 <= j < i ==> b@[j] != SLASH,
            decreases n - i,
        {
            i = i + 1;
        }
        proof {
            lemma_slash_pos(bytes, i as int);
        }
        if i == n {
            return Ok(LockData { locked_until: 0, instance_id: String::new() });
        }
        let locked_until = if i == 0 {
            0
        } else {
            match parse_u64_digits(b, 0, i) {
                Some(v) => v,
                None => return Err(LockDataError::InvalidTimestamp),
            }
        };
        proof {
            lemma_slash_splits(bytes, i as int);
        }
        let (_head, rest) = s.split_at(i);
        let (_sep, tail) = rest.split_at(1);
        let instance_id = tail.to_owned();
        proof {
            assert(tail.spec_bytes() =~= bytes.subrange(i + 1, n as int));
            encode_utf8_decode_utf8(tail@);
        }
        Ok(LockData { locked_until, instance_id })
    }

    /// Writes the lock record.
    pub fn encode(&self) -> (r: Vec<u8>)
        ensures
            r@ == encoding(self@),
    {
        let mut out: Vec<u8> = Vec::new();
        push_decimal(self.locked_until, &mut out);
        out.push(SLASH);
        let ghost head = out@;
        let id: &[u8] = self.instance_id.as_str().as_bytes();
        let mut k: usize = 0;
        while k < id.len()
            invariant
                k <= id@.len(),
                out@ == head + id@.subrange(0, k as int),
            decreases id@.len() - k,
        {
            out.push(id[k]);
            k = k + 1;
            assert(out@ =~= head + id@.subrange(0, k as int));
        }
        assert(id@.subrange(0, k as int) =~= id@);
        assert(head =~= decimal(self.locked_until as nat) + seq![SLASH]);
        out
    }
}

/// Reading a record splits its text at the first `'/'` character, as splitting the decoded
/// string would: the expiry field is the text before it, the instance id the text after it;
/// a text without `'/'` has neither.
pub proof fn lemma_fields_split_text_at_first_slash(b: Seq<u8>)
    requires
        valid_utf8(b),
    ensures
        ({
            let cs = decode_utf8(b);
            let k = slash_char_pos(cs);
            &&& (slash_pos(b) < b.len()) == (k < cs.len())
            &&& k < cs.len() ==> decode_utf8(timestamp_field(b)) == cs.subrange(0, k as int)
                && decode_utf8(instance_id_field(b)) == cs.subrange(k as int + 1, cs.len() as int)
        }),
{
    let cs = decode_utf8(b);
    let i = slash_pos(b) as int;
    decode_utf8_encode_utf8(b);
    lemma_slash_pos_facts(b);
    if i < b.len() {
        lemma_slash_splits(b, i);
        decode_utf8_split(b, i);
        let head = b.subrange(0, i);
        let rest = b.subrange(i, b.len() as int);
        decode_utf8_split(rest, 1);
        let tail = rest.subrange(1, rest.len() as int);
        assert(tail =~= b.subrange(i + 1, b.len() as int));
        assert(rest.subrange(0, 1) =~= seq![SLASH]);
        lemma_encode_char_slash('/');
        encode_utf8_decode_utf8(seq!['/']);
        let p = decode_utf8(head);
        assert(valid_utf8(head));
        decode_utf8_encode_utf8(head);
        assert forall|j: int| 0 <= j < encode_utf8(p).len() implies encode_utf8(p)[j] != SLASH by {
            assert(encode_utf8(p)[j] == b[j]);
        }
        lemma_no_slash_byte_no_slash_char(p);
        assert(cs =~= p + seq!['/'] + decode_utf8(tail));
        assert forall|j: int| 0 <= j < p.len() implies cs[j] != '/' by {
            assert(cs[j] == p[j]);
        }
        lemma_slash_char_pos(cs, p.len() as int);
        assert(cs.subrange(0, p.len() as int) =~= p);
        assert(cs.subrange(p.len() as int + 1, cs.len() as int) =~= decode_utf8(tail));
    } else {
        assert forall|j: int| 0 <= j < encode_utf8(cs).len() implies encode_utf8(cs)[j] != SLASH by {
            assert(encode_utf8(cs)[j] == b[j]);
        }
        lemma_no_slash_byte_no_slash_char(cs);
        lemma_slash_char_pos(cs, cs.len() as int);
    }
}

/// Reading back a written lock record gives the record that was written, for every
/// expiry and every instance id (a `'/'` in the instance id included).
pub proof fn lemma_decode_encode(d: LockDataView)
    ensures
        decoding(encoding(d)) == Ok::<LockDataView, LockDataError>(d),
{
    let dec = decimal(d.locked_until as nat);
    let idb = encode_utf8(d.instance_id);
    let b = encoding(d);
    lemma_decimal(d.locked_until as nat);
    let head = dec + seq![SLASH];
    assert(b =~= head + idb);
    assert(valid_utf8(head)) by {
        assert forall|i: int| 0 <= i < head.len() implies #[trigger] head[i] < 128 by {
            if i < dec.len() {
                assert(is_digit(dec[i]));
            }
        }
        lemma_ascii_valid_utf8(head);
    }
    encode_utf8_valid_utf8(d.instance_id);
    valid_utf8_concat(head, idb);
    assert forall|j: int| 0 <= j < dec.len() implies b[j] != SLASH by {
        assert(b[j] == dec[j]);
        assert(is_digit(dec[j]));
    }
    assert(b[dec.len() as int] == SLASH);
    lemma_slash_pos(b, dec.len() as int);
    assert(timestamp_field(b) =~= dec);
    assert(instance_id_field(b) =~= idb);
    assert(is_digit(dec[0]));
    assert(unsigned_digits(dec) =~= dec);
    encode_utf8_decode_utf8(d.instance_id);
}

} // verus!
