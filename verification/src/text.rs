//! Byte-level reading and writing of the small text formats the stores use: decimal
//! numbers, `'/'`-separated fields, UTF-8 strings and lowercase hex.
use vstd::prelude::*;
use vstd::string::StringSliceAdditionalSpecFns;
use vstd::utf8::*;

verus! {

/// The byte of `'/'`, which separates fields.
pub const SLASH: u8 = 47;

/// The byte of `'+'`, which may stand before the digits of an unsigned number.
pub const PLUS: u8 = 43;

/// The byte of `'0'`.
pub const ZERO: u8 = 48;

pub open spec fn is_digit(b: u8) -> bool {
    ZERO <= b <= 57
}

pub open spec fn all_digits(s: Seq<u8>) -> bool {
    forall|i: int| 0 <= i < s.len() ==> is_digit(#[trigger] s[i])
}

/// The number that a sequence of decimal digits denotes.
pub open spec fn digits_value(s: Seq<u8>) -> nat
    decreases s.len(),
{
    if s.len() == 0 {
        0
    } else {
        digits_value(s.drop_last()) * 10 + (s.last() - ZERO) as nat
    }
}

/// The digits that an unsigned number is read from: one leading `'+'` is skipped
/// when something follows it.
pub open spec fn unsigned_digits(s: Seq<u8>) -> Seq<u8> {
    if s.len() > 1 && s[0] == PLUS {
        s.drop_first()
    } else {
        s
    }
}

/// Reading a `u64` from text: at least one digit, nothing but digits, and no overflow.
pub open spec fn parse_u64(s: Seq<u8>) -> Option<u64> {
    let d = unsigned_digits(s);
    if d.len() > 0 && all_digits(d) && digits_value(d) <= u64::MAX {
        Some(digits_value(d) as u64)
    } else {
        None
    }
}

/// The shortest decimal writing of `n`.
pub open spec fn decimal(n: nat) -> Seq<u8>
    decreases n,
{
    if n < 10 {
        seq![(ZERO + n) as u8]
    } else {
        decimal(n / 10).push((ZERO + n % 10) as u8)
    }
}

/// The index of the first `'/'` in `b`, or the length of `b` when there is none.
pub open spec fn slash_pos(b: Seq<u8>) -> nat
    decreases b.len(),
{
    if b.len() == 0 {
        0
    } else if b[0] == SLASH {
        0
    } else {
        1 + slash_pos(b.drop_first())
    }
}

/// `String::from_utf8`: a string exactly when the bytes are valid UTF-8, holding the
/// characters that they encode.
#[verifier::external_body]
pub(crate) fn string_from_utf8(bytes: Vec<u8>) -> (r: Option<String>)
    ensures
        match r {
            Some(s) => valid_utf8(bytes@) && s@ == decode_utf8(bytes@),
            None => !valid_utf8(bytes@),
        },
{
    match String::from_utf8(bytes) {
        Ok(s) => Some(s),
        Err(_) => None,
    }
}

pub proof fn lemma_decimal(n: nat)
    ensures
        decimal(n).len() > 0,
        all_digits(decimal(n)),
        digits_value(decimal(n)) == n,
    decreases n,
{
    let s = decimal(n);
    if n < 10 {
        assert(s.drop_last() =~= Seq::<u8>::empty());
        assert(digits_value(s.drop_last()) == 0);
        assert(digits_value(s) == (s.last() - ZERO) as nat);
    } else {
        lemma_decimal(n / 10);
        assert(s.drop_last() =~= decimal(n / 10));
        assert(forall|i: int| 0 <= i < s.len() - 1 ==> s[i] == decimal(n / 10)[i]);
        vstd::arithmetic::div_mod::lemma_fundamental_div_mod(n as int, 10);
        assert(s.last() == (ZERO + n % 10) as u8);
        assert((s.last() - ZERO) as nat == n % 10);
        assert(digits_value(s) == digits_value(s.drop_last()) * 10 + (s.last() - ZERO) as nat);
        assert(digits_value(s.drop_last()) == n / 10);
    }
}

pub proof fn lemma_digits_value_prefix(s: Seq<u8>, k: int)
    requires
        all_digits(s),
        0 <= k <= s.len(),
    ensures
        digits_value(s.subrange(0, k)) <= digits_value(s),
    decreases s.len(),
{
    if k < s.len() {
        let p = s.drop_last();
        assert(all_digits(p)) by {
            assert forall|i: int| 0 <= i < p.len() implies is_digit(#[trigger] p[i]) by {
                assert(p[i] == s[i]);
            }
        }
        lemma_digits_value_prefix(p, k);
        assert(p.subrange(0, k) =~= s.subrange(0, k));
    } else {
        assert(s.subrange(0, k) =~= s);
    }
}

pub proof fn lemma_slash_pos(b: Seq<u8>, i: int)
    requires
        0 <= i <= b.len(),
        forall|j: int| 0 <= j < i ==> b[j] != SLASH,
        i == b.len() || b[i] == SLASH,
    ensures
        slash_pos(b) == i,
    decreases i,
{
    if i > 0 {
        let t = b.drop_first();
        assert forall|j: int| 0 <= j < i - 1 implies t[j] != SLASH by {
            assert(t[j] == b[j + 1]);
        }
        assert(b[0] != SLASH);
        lemma_slash_pos(t, i - 1);
    }
}

pub proof fn lemma_ascii_valid_utf8(b: Seq<u8>)
    requires
        forall|i: int| 0 <= i < b.len() ==> #[trigger] b[i] < 128,
    ensures
        valid_utf8(b),
{
    assert(valid_utf8(b.subrange(0, 0)));
    assert forall|i: int| 0 <= 0 <= i < b.len() <= b.len() implies #[trigger] is_leading_byte_width_1(b[i]) by {
        assert(b[i] < 128);
    }
    partial_valid_utf8_extend_ascii_block(b, 0, b.len() as int);
    assert(b.subrange(0, b.len() as int) =~= b);
}

pub proof fn lemma_boundary_after_ascii(b: Seq<u8>)
    requires
        valid_utf8(b),
        b.len() > 0,
        is_leading_byte_width_1(b[0]),
    ensures
        is_char_boundary(b, 1),
{
    reveal_with_fuel(is_char_boundary, 2);
}

/// Writes the decimal digits of `n` after what `out` holds.
pub fn push_decimal(n: u64, out: &mut Vec<u8>)
    ensures
        final(out)@ == old(out)@ + decimal(n as nat),
    decreases n,
{
    if n >= 10 {
        push_decimal(n / 10, out);
    }
    let digit = (n % 10) as u8;
    out.push(ZERO + digit);
    proof {
        if n >= 10 {
            assert(old(out)@ + decimal(n as nat) =~= (old(out)@ + decimal((n / 10) as nat)).push(
                (ZERO + n % 10) as u8,
            ));
        } else {
            assert(old(out)@ + decimal(n as nat) =~= old(out)@.push((ZERO + n) as u8));
        }
    }
}

/// Reads an unsigned number from `b[start..end]` as `u64::from_str` does.
pub fn parse_u64_digits(b: &[u8], start: usize, end: usize) -> (r: Option<u64>)
    requires
        start <= end <= b@.len(),
    ensures
        r == parse_u64(b@.subrange(start as int, end as int)),
{
    let ghost s = b@.subrange(start as int, end as int);
    let mut i = start;
    if end - start > 1 && b[start] == PLUS {
        i = start + 1;
    }
    let ghost d = b@.subrange(i as int, end as int);
    assert(d =~= unsigned_digits(s));
    if i == end {
        return None;
    }
    let mut acc: u64 = 0;
    let mut j = i;
    assert(b@.subrange(i as int, j as int) =~= Seq::<u8>::empty());
    while j < end
        invariant
            start <= i < end <= b@.len(),
            i <= j <= end,
            d == b@.subrange(i as int, end as int),
            d =~= unsigned_digits(s),
            s == b@.subrange(start as int, end as int),
            all_digits(b@.subrange(i as int, j as int)),
            acc == digits_value(b@.subrange(i as int, j as int)),
        decreases end - j,
    {
        let c = b[j];
        if c < ZERO || c > 57 {
            assert(d[j - i] == c);
            return None;
        }
        let digit = (c - ZERO) as u64;
        let ghost p = b@.subrange(i as int, j + 1);
        assert(p.drop_last() =~= b@.subrange(i as int, j as int));
        assert(all_digits(p)) by {
            assert forall|k: int| 0 <= k < p.len() implies is_digit(#[trigger] p[k]) by {
                if k < p.len() - 1 {
                    assert(p[k] == b@.subrange(i as int, j as int)[k]);
                }
            }
        }
        assert(digits_value(p) == acc * 10 + digit);
        let m = acc.checked_mul(10);
        if m.is_none() {
            proof {
                if all_digits(d) {
                    lemma_digits_value_prefix(d, j - i + 1);
                    assert(d.subrange(0, j - i + 1) =~= p);
                }
            }
            return None;
        }
        let v = m.unwrap().checked_add(digit);
        if v.is_none() {
            proof {
                if all_digits(d) {
                    lemma_digits_value_prefix(d, j - i + 1);
                    assert(d.subrange(0, j - i + 1) =~= p);
                }
            }
            return None;
        }
        acc = v.unwrap();
        j = j + 1;
    }
    assert(b@.subrange(i as int, j as int) =~= d);
    Some(acc)
}

/// The index of the first `'/'` in `b` at or after `from`, or the length of `b`.
pub fn find_slash(b: &[u8], from: usize) -> (r: usize)
    requires
        from <= b@.len(),
    ensures
        from <= r <= b@.len(),
        forall|t: int| from <= t < r ==> b@[t] != SLASH,
        r < b@.len() ==> b@[r as int] == SLASH,
        r == from + slash_pos(b@.subrange(from as int, b@.len() as int)),
{
    let n = b.len();
    let mut i = from;
    while i < n && b[i] != SLASH
        invariant
            from <= i <= n,
            n == b@.len(),
            forall|t: int| from <= t < i ==> b@[t] != SLASH,
        decreases n - i,
    {
        i = i + 1;
    }
    proof {
        let rest = b@.subrange(from as int, n as int);
        assert forall|t: int| 0 <= t < i - from implies rest[t] != SLASH by {
            assert(rest[t] == b@[from + t]);
        }
        lemma_slash_pos(rest, i - from);
    }
    i
}

/// A `'/'` in valid UTF-8 text splits it at character boundaries: before the `'/'` and right
/// after it.
pub proof fn lemma_slash_splits(bytes: Seq<u8>, i: int)
    requires
        valid_utf8(bytes),
        0 <= i < bytes.len(),
        bytes[i] == SLASH,
    ensures
        is_char_boundary(bytes, i),
        valid_utf8(bytes.subrange(0, i)),
        valid_utf8(bytes.subrange(i, bytes.len() as int)),
        is_char_boundary(bytes.subrange(i, bytes.len() as int), 1),
        valid_utf8(bytes.subrange(i + 1, bytes.len() as int)),
{
    is_char_boundary_iff_is_leading_byte(bytes, i);
    valid_utf8_split(bytes, i);
    let rest = bytes.subrange(i, bytes.len() as int);
    assert(rest[0] == SLASH);
    lemma_boundary_after_ascii(rest);
    valid_utf8_split(rest, 1);
    assert(rest.subrange(1, rest.len() as int) =~= bytes.subrange(i + 1, bytes.len() as int));
}

/// Encoding text piece by piece gives the encoding of the whole.
pub proof fn lemma_encode_utf8_append(a: Seq<char>, b: Seq<char>)
    ensures
        encode_utf8(a + b) == encode_utf8(a) + encode_utf8(b),
    decreases a.len(),
{
    if a.len() == 0 {
        assert(a + b =~= b);
        assert(encode_utf8(a) =~= Seq::<u8>::empty());
        assert(encode_utf8(a) + encode_utf8(b) =~= encode_utf8(b));
    } else {
        lemma_encode_utf8_append(a.drop_first(), b);
        assert((a + b).drop_first() =~= a.drop_first() + b);
        assert((a + b)[0] == a[0]);
        assert(encode_utf8(a + b) =~= encode_scalar(a[0] as u32) + (encode_utf8(a.drop_first())
            + encode_utf8(b)));
    }
}

proof fn lemma_scalar_bytes(v: u32)
    by (bit_vector)
    ensures
        leading_byte_width_2(v) >= 0x80,
        leading_byte_width_3(v) >= 0x80,
        leading_byte_width_4(v) >= 0x80,
        last_continuation_byte(v) >= 0x80,
        second_last_continuation_byte(v) >= 0x80,
        third_last_continuation_byte(v) >= 0x80,
        v <= 0x7f ==> leading_byte_width_1(v) == v,
{
}

/// The encoding of a character is a single `'/'` byte exactly when the character is `'/'`,
/// and holds no `'/'` byte otherwise.
pub proof fn lemma_encode_char_slash(c: char)
    ensures
        encode_utf8(seq![c]) == encode_scalar(c as u32),
        c == '/' ==> encode_utf8(seq![c]) == seq![SLASH],
        c != '/' ==> forall|j: int|
            0 <= j < encode_utf8(seq![c]).len() ==> encode_utf8(seq![c])[j] != SLASH,
{
    let v = c as u32;
    char_is_scalar(c);
    lemma_scalar_bytes(v);
    assert(seq![c].drop_first() =~= Seq::<char>::empty());
    assert(encode_utf8(seq![c]) =~= encode_scalar(v) + encode_utf8(Seq::<char>::empty()));
    assert(encode_utf8(seq![c]) =~= encode_scalar(v));
    if has_width_1_encoding(v) && v == 47 {
        char_u32_cast(c, v);
    }
}

/// Text without a `'/'` character encodes to bytes without a `'/'` byte.
pub proof fn lemma_encode_no_slash(cs: Seq<char>)
    requires
        forall|i: int| 0 <= i < cs.len() ==> cs[i] != '/',
    ensures
        forall|j: int| 0 <= j < encode_utf8(cs).len() ==> encode_utf8(cs)[j] != SLASH,
    decreases cs.len(),
{
    if cs.len() > 0 {
        let rest = cs.drop_first();
        lemma_encode_no_slash(rest);
        lemma_encode_char_slash(cs[0]);
        let e = encode_utf8(cs);
        assert(e =~= encode_utf8(seq![cs[0]]) + encode_utf8(rest));
    }
}

/// The lowercase hexadecimal digit of `n` (below 16).
pub open spec fn hex_digit(n: u8) -> u8 {
    if n < 10 {
        (ZERO + n) as u8
    } else {
        (87 + n) as u8
    }
}

/// Two lowercase hexadecimal digits per byte, the high half first.
pub open spec fn hex_encoding(b: Seq<u8>) -> Seq<u8>
    decreases b.len(),
{
    if b.len() == 0 {
        seq![]
    } else {
        hex_encoding(b.drop_last()) + seq![hex_digit(b.last() / 16), hex_digit(b.last() % 16)]
    }
}

/// The hex writing is twice as long as the bytes, and ASCII.
pub proof fn lemma_hex_encoding_facts(b: Seq<u8>)
    ensures
        hex_encoding(b).len() == 2 * b.len(),
        forall|i: int| 0 <= i < hex_encoding(b).len() ==> #[trigger] hex_encoding(b)[i] < 128,
    decreases b.len(),
{
    if b.len() > 0 {
        lemma_hex_encoding_facts(b.drop_last());
        let h = hex_encoding(b);
        let p = hex_encoding(b.drop_last());
        assert forall|i: int| 0 <= i < h.len() implies #[trigger] h[i] < 128 by {
            if i < p.len() {
                assert(h[i] == p[i]);
            }
        }
    }
}

/// Different bytes have different hex writings.
pub proof fn lemma_hex_injective(a: Seq<u8>, b: Seq<u8>)
    requires
        hex_encoding(a) == hex_encoding(b),
    ensures
        a == b,
    decreases a.len(),
{
    lemma_hex_encoding_facts(a);
    lemma_hex_encoding_facts(b);
    if a.len() > 0 {
        let ha = hex_encoding(a);
        let pa = hex_encoding(a.drop_last());
        let pb = hex_encoding(b.drop_last());
        lemma_hex_encoding_facts(a.drop_last());
        lemma_hex_encoding_facts(b.drop_last());
        let n = ha.len() as int;
        assert(ha[n - 2] == hex_digit(a.last() / 16) && ha[n - 2] == hex_digit(b.last() / 16));
        assert(ha[n - 1] == hex_digit(a.last() % 16) && ha[n - 1] == hex_digit(b.last() % 16));
        assert(a.last() / 16 == b.last() / 16);
        assert(a.last() % 16 == b.last() % 16);
        assert(a.last() == b.last()) by {
            vstd::arithmetic::div_mod::lemma_fundamental_div_mod(a.last() as int, 16);
            vstd::arithmetic::div_mod::lemma_fundamental_div_mod(b.last() as int, 16);
        }
        assert(pa =~= ha.subrange(0, n - 2));
        assert(pb =~= ha.subrange(0, n - 2));
        lemma_hex_injective(a.drop_last(), b.drop_last());
        assert(a =~= a.drop_last().push(a.last()));
        assert(b =~= b.drop_last().push(b.last()));
    }
}

/// The string of the ASCII bytes `b`.
fn ascii_string(b: Vec<u8>) -> (r: String)
    requires
        forall|i: int| 0 <= i < b@.len() ==> #[trigger] b@[i] < 128,
    ensures
        encode_utf8(r@) == b@,
{
    proof {
        lemma_ascii_valid_utf8(b@);
    }
    let ghost bytes = b@;
    match string_from_utf8(b) {
        Some(s) => {
            proof {
                decode_utf8_encode_utf8(bytes);
            }
            s
        },
        None => unreached(),
    }
}

/// The lowercase hexadecimal writing of `bytes`.
pub fn hex(bytes: &[u8]) -> (r: String)
    ensures
        encode_utf8(r@) == hex_encoding(bytes@),
{
    let mut out: Vec<u8> = Vec::new();
    let mut i: usize = 0;
    assert(bytes@.subrange(0, 0) =~= Seq::<u8>::empty());
    while i < bytes.len()
        invariant
            i <= bytes@.len(),
            out@ == hex_encoding(bytes@.subrange(0, i as int)),
            forall|t: int| 0 <= t < out@.len() ==> #[trigger] out@[t] < 128,
        decreases bytes@.len() - i,
    {
        let b = bytes[i];
        let hi = b / 16;
        let lo = b % 16;
        let h = if hi < 10 { ZERO + hi } else { 87 + hi };
        let l = if lo < 10 { ZERO + lo } else { 87 + lo };
        out.push(h);
        out.push(l);
        proof {
            let p = bytes@.subrange(0, i + 1);
            assert(p.drop_last() =~= bytes@.subrange(0, i as int));
            assert(p.last() == b);
        }
        i = i + 1;
    }
    assert(bytes@.subrange(0, i as int) =~= bytes@);
    ascii_string(out)
}

/// The decimal writing of `n` as a string.
pub fn decimal_string(n: u64) -> (r: String)
    ensures
        encode_utf8(r@) == decimal(n as nat),
{
    let mut out: Vec<u8> = Vec::new();
    push_decimal(n, &mut out);
    proof {
        lemma_decimal(n as nat);
        assert(out@ =~= decimal(n as nat));
        assert forall|i: int| 0 <= i < out@.len() implies #[trigger] out@[i] < 128 by {
            assert(is_digit(decimal(n as nat)[i]));
        }
    }
    ascii_string(out)
}

/// What `slash_pos` finds: no `'/'` before it, and a `'/'` at it unless it is the length.
pub proof fn lemma_slash_pos_facts(b: Seq<u8>)
    ensures
        slash_pos(b) <= b.len(),
        forall|j: int| 0 <= j < slash_pos(b) ==> b[j] != SLASH,
        slash_pos(b) < b.len() ==> b[slash_pos(b) as int] == SLASH,
    decreases b.len(),
{
    if b.len() > 0 && b[0] != SLASH {
        let t = b.drop_first();
        lemma_slash_pos_facts(t);
        assert forall|j: int| 0 <= j < slash_pos(b) implies b[j] != SLASH by {
            if j > 0 {
                assert(b[j] == t[j - 1]);
            }
        }
    }
}

/// The index of the first `'/'` character in `cs`, or the length of `cs` when there is none.
pub open spec fn slash_char_pos(cs: Seq<char>) -> nat
    decreases cs.len(),
{
    if cs.len() == 0 {
        0
    } else if cs[0] == '/' {
        0
    } else {
        1 + slash_char_pos(cs.drop_first())
    }
}

pub proof fn lemma_slash_char_pos(cs: Seq<char>, i: int)
    requires
        0 <= i <= cs.len(),
        forall|j: int| 0 <= j < i ==> cs[j] != '/',
        i == cs.len() || cs[i] == '/',
    ensures
        slash_char_pos(cs) == i,
    decreases i,
{
    if i > 0 {
        let t = cs.drop_first();
        assert forall|j: int| 0 <= j < i - 1 implies t[j] != '/' by {
            assert(t[j] == cs[j + 1]);
        }
        assert(cs[0] != '/');
        lemma_slash_char_pos(t, i - 1);
    }
}

/// Text whose encoding holds no `'/'` byte holds no `'/'` character.
pub proof fn lemma_no_slash_byte_no_slash_char(cs: Seq<char>)
    requires
        forall|j: int| 0 <= j < encode_utf8(cs).len() ==> encode_utf8(cs)[j] != SLASH,
    ensures
        forall|i: int| 0 <= i < cs.len() ==> cs[i] != '/',
{
    assert forall|i: int| 0 <= i < cs.len() implies cs[i] != '/' by {
        if cs[i] == '/' {
            let before = cs.subrange(0, i);
            let after = cs.subrange(i + 1, cs.len() as int);
            assert(cs =~= before + seq![cs[i]] + after);
            lemma_encode_utf8_append(before, seq![cs[i]]);
            lemma_encode_utf8_append(before + seq![cs[i]], after);
            lemma_encode_char_slash(cs[i]);
            let e = encode_utf8(cs);
            let n = encode_utf8(before).len() as int;
            assert(e == encode_utf8(before) + seq![SLASH] + encode_utf8(after));
            assert(e[n] == SLASH);
        }
    }
}

/// The value of a hexadecimal digit, in either case.
pub open spec fn hex_value(c: u8) -> Option<u8> {
    if ZERO <= c <= 57 {
        Some((c - ZERO) as u8)
    } else if 97 <= c <= 102 {
        Some((c - 87) as u8)
    } else if 65 <= c <= 70 {
        Some((c - 55) as u8)
    } else {
        None
    }
}

/// The bytes that pairs of hexadecimal digits denote, the high half first.
pub open spec fn hex_pairs(s: Seq<u8>) -> Option<Seq<u8>>
    decreases s.len(),
{
    if s.len() < 2 {
        Some(seq![])
    } else {
        let n = s.len() as int;
        match (hex_pairs(s.subrange(0, n - 2)), hex_value(s[n - 2]), hex_value(s[n - 1])) {
            (Some(prefix), Some(hi), Some(lo)) => Some(prefix.push((hi * 16 + lo) as u8)),
            _ => None,
        }
    }
}

/// Reading hexadecimal text: an even number of hexadecimal digits, in either case.
pub open spec fn hex_decoding(s: Seq<u8>) -> Option<Seq<u8>> {
    if s.len() % 2 == 1 {
        None
    } else {
        hex_pairs(s)
    }
}

/// The bytes written in hexadecimal in `s`; none for an odd length or a non-hex digit.
pub fn hex_decode(s: &str) -> (r: Option<Vec<u8>>)
    ensures
        match r {
            Some(v) => hex_decoding(s.spec_bytes()) == Some(v@),
            None => hex_decoding(s.spec_bytes()) is None,
        },
{
    let b: &[u8] = s.as_bytes();
    let n = b.len();
    if n % 2 == 1 {
        return None;
    }
    let mut out: Vec<u8> = Vec::new();
    let mut i: usize = 0;
    assert(b@.subrange(0, 0) =~= Seq::<u8>::empty());
    while i < n
        invariant
            b@ == s.spec_bytes(),
            n == b@.len(),
            n % 2 == 0,
            i % 2 == 0,
            i <= n,
            hex_pairs(b@.subrange(0, i as int)) == Some(out@),
        decreases n - i,
    {
        let c1 = b[i];
        let c2 = b[i + 1];
        let hi = if ZERO <= c1 && c1 <= 57 {
            c1 - ZERO
        } else if 97 <= c1 && c1 <= 102 {
            c1 - 87
        } else if 65 <= c1 && c1 <= 70 {
            c1 - 55
        } else {
            255
        };
        let lo = if ZERO <= c2 && c2 <= 57 {
            c2 - ZERO
        } else if 97 <= c2 && c2 <= 102 {
            c2 - 87
        } else if 65 <= c2 && c2 <= 70 {
            c2 - 55
        } else {
            255
        };
        let ghost p = b@.subrange(0, i + 2);
        assert(p.subrange(0, i as int) =~= b@.subrange(0, i as int));
        assert(p[i as int] == c1 && p[i + 1] == c2);
        assert(hi == 255 <==> hex_value(c1) is None);
        assert(lo == 255 <==> hex_value(c2) is None);
        if hi == 255 || lo == 255 {
            proof {
                assert(hex_pairs(p) is None);
                lemma_hex_pairs_prefix(b@, i + 2);
            }
            return None;
        }
        assert(hex_value(c1) == Some(hi) && hex_value(c2) == Some(lo));
        out.push(hi * 16 + lo);
        assert(hex_pairs(p) == Some(out@));
        i = i + 2;
    }
    assert(b@.subrange(0, n as int) =~= b@);
    Some(out)
}

/// A prefix of an even length that holds a non-hex digit makes the whole text unreadable.
proof fn lemma_hex_pairs_prefix(s: Seq<u8>, k: int)
    requires
        0 <= k <= s.len(),
        k % 2 == 0,
        s.len() % 2 == 0,
        hex_pairs(s.subrange(0, k)) is None,
    ensures
        hex_pairs(s) is None,
    decreases s.len() - k,
{
    if k < s.len() {
        let t = s.subrange(0, k + 2);
        assert(t.subrange(0, k) =~= s.subrange(0, k));
        lemma_hex_pairs_prefix(s, k + 2);
    } else {
        assert(s.subrange(0, k) =~= s);
    }
}

/// Reading back the hex writing of some bytes gives those bytes.
pub proof fn lemma_hex_decode_encode(b: Seq<u8>)
    ensures
        hex_decoding(hex_encoding(b)) == Some(b),
    decreases b.len(),
{
    lemma_hex_encoding_facts(b);
    if b.len() > 0 {
        let h = hex_encoding(b);
        let p = b.drop_last();
        lemma_hex_decode_encode(p);
        lemma_hex_encoding_facts(p);
        let n = h.len() as int;
        assert(h.subrange(0, n - 2) =~= hex_encoding(p));
        let x = b.last();
        assert(hex_value(hex_digit(x / 16)) == Some((x / 16) as u8));
        assert(hex_value(hex_digit(x % 16)) == Some((x % 16) as u8));
        vstd::arithmetic::div_mod::lemma_fundamental_div_mod(x as int, 16);
        assert(((x / 16) * 16 + x % 16) as u8 == x);
        assert(b =~= p.push(x));
    }
}

} // verus!
