//! Small text utilities for the command-line helpers: case folding, byte
//! level comparison and substring search, and decimal numbers.
use vstd::prelude::*;
use vstd::utf8::encode_utf8;

verus! {

/// The lowercase form of `s`, as `str::to_lowercase` computes it.
pub uninterp spec fn lower_of(s: Seq<char>) -> Seq<char>;

/// Relies on str::to_lowercase: the lowercase form of the text, which
/// depends on its characters alone.
#[verifier::external_body]
fn to_lower(s: &str) -> (r: String)
    ensures
        r@ == lower_of(s@),
{
    s.to_lowercase()
}

/// The UTF-8 bytes of the lowercase form of `s`.
pub open spec fn lower_bytes(s: Seq<char>) -> Seq<u8> {
    encode_utf8(lower_of(s))
}

/// The UTF-8 bytes of the lowercase form of `s`.
pub fn lowercase_bytes(s: &str) -> (r: Vec<u8>)
    ensures
        r@ == lower_bytes(s@),
{
    let lower = to_lower(s);
    let b = lower.as_str().as_bytes();
    let mut out: Vec<u8> = Vec::new();
    let mut i: usize = 0;
    while i < b.len()
        invariant
            i <= b@.len(),
            out@ == b@.subrange(0, i as int),
        decreases b@.len() - i,
    {
        out.push(b[i]);
        i = i + 1;
        assert(out@ =~= b@.subrange(0, i as int));
    }
    assert(b@.subrange(0, i as int) =~= b@);
    out
}

/// `pat` stands somewhere in `hay`.
pub open spec fn has_sub(hay: Seq<u8>, pat: Seq<u8>) -> bool {
    exists|i: int|
        0 <= i && i + pat.len() <= hay.len() && #[trigger] hay.subrange(i, i + pat.len()) == pat
}

fn matches_at(hay: &[u8], at: usize, pat: &[u8]) -> (r: bool)
    requires
        at + pat@.len() <= hay@.len(),
    ensures
        r == (hay@.subrange(at as int, at + pat@.len()) == pat@),
{
    let mut k: usize = 0;
    while k < pat.len()
        invariant
            at + pat@.len() <= hay.len(),
            k <= pat@.len(),
            forall|j: int| 0 <= j < k ==> hay@[at + j] == pat@[j],
        decreases pat@.len() - k,
    {
        if hay[at + k] != pat[k] {
            assert(hay@.subrange(at as int, at + pat@.len())[k as int] != pat@[k as int]);
            return false;
        }
        k = k + 1;
    }
    assert(hay@.subrange(at as int, at + pat@.len()) =~= pat@);
    true
}

/// Whether `pat` stands somewhere in `hay`.
pub fn contains_bytes(hay: &[u8], pat: &[u8]) -> (r: bool)
    ensures
        r == has_sub(hay@, pat@),
{
    if pat.len() > hay.len() {
        return false;
    }
    if pat.len() == 0 {
        assert(hay@.subrange(0, 0 + pat@.len() as int) =~= pat@);
        return true;
    }
    let last = hay.len() - pat.len();
    let mut i: usize = 0;
    while i <= last
        invariant
            last == hay@.len() - pat@.len(),
            last < hay.len(),
            i <= last + 1,
            forall|j: int| 0 <= j < i ==> #[trigger] hay@.subrange(j, j + pat@.len()) != pat@,
        decreases last + 1 - i,
    {
        if matches_at(hay, i, pat) {
            return true;
        }
        i = i + 1;
    }
    false
}

/// Whether `key` is exactly the UTF-8 text of `lit`.
pub fn bytes_are(key: &[u8], lit: &str) -> (r: bool)
    ensures
        r == (key@ == encode_utf8(lit@)),
{
    let b = lit.as_bytes();
    if key.len() != b.len() {
        return false;
    }
    let r = matches_at(key, 0, b);
    assert(key@.subrange(0, b@.len() as int) =~= key@);
    r
}

/// Whether the lowercase form of `hay` holds that of `pat`.
pub fn contains_ignoring_case(hay: &str, pat: &str) -> (r: bool)
    ensures
        r == has_sub(lower_bytes(hay@), lower_bytes(pat@)),
{
    let h = lowercase_bytes(hay);
    let p = lowercase_bytes(pat);
    contains_bytes(h.as_slice(), p.as_slice())
}

/// Value of a nonempty run of decimal digits; `None` where a byte is not a
/// digit.
pub open spec fn digits_value(b: Seq<u8>) -> Option<nat>
    decreases b.len(),
{
    if b.len() == 0 || !(48 <= b.last() <= 57) {
        None
    } else if b.len() == 1 {
        Some((b.last() - 48) as nat)
    } else {
        match digits_value(b.drop_last()) {
            Some(v) => Some(v * 10 + (b.last() - 48) as nat),
            None => None,
        }
    }
}

/// Value of an unsigned decimal number as Rust's `parse` reads it: an
/// optional `+`, then digits.
pub open spec fn unsigned_value(b: Seq<u8>) -> Option<nat> {
    if b.len() > 0 && b[0] == 43 {
        digits_value(b.drop_first())
    } else {
        digits_value(b)
    }
}

/// Reads the digits of `b` from index `start` on as a number no larger
/// than `max`.
pub fn parse_digits(b: &[u8], start: usize, max: u64) -> (r: Option<u64>)
    requires
        start <= b@.len(),
    ensures
        r == (match digits_value(b@.skip(start as int)) {
            Some(v) => if v <= max {
                Some(v as u64)
            } else {
                None
            },
            None => None,
        }),
{
    let ghost digits = b@.skip(start as int);
    assert(digits =~= b@.subrange(start as int, b@.len() as int));
    if start >= b.len() {
        return None;
    }
    let mut v: u64 = 0;
    let mut big = false;
    let mut i = start;
    while i < b.len()
        invariant
            start < b@.len(),
            start <= i <= b@.len(),
            digits == b@.subrange(start as int, b@.len() as int),
            i == start ==> v == 0 && !big,
            i == start || (digits_value(b@.subrange(start as int, i as int)) matches Some(x) && (
            big ==> x > max) && (!big ==> x == v && v <= max)),
        decreases b@.len() - i,
    {
        let c = b[i];
        let ghost pre = b@.subrange(start as int, i as int);
        let ghost next = b@.subrange(start as int, i + 1);
        assert(next.drop_last() =~= pre);
        if c < 48 || c > 57 {
            proof {
                assert(next.last() == c);
                assert(digits.take((i - start) as int + 1) =~= next);
                lemma_digits_prefix(digits, (i - start) as int + 1);
            }
            return None;
        }
        let d = (c - 48) as u64;
        if !big {
            if d > max || v > (max - d) / 10 {
                big = true;
            } else {
                v = v * 10 + d;
            }
        }
        i = i + 1;
    }
    assert(b@.subrange(start as int, b@.len() as int) =~= digits);
    if big {
        None
    } else {
        Some(v)
    }
}

/// Reads an unsigned decimal number no larger than `max`.
pub fn parse_unsigned(s: &str, max: u64) -> (r: Option<u64>)
    ensures
        r == (match unsigned_value(encode_utf8(s@)) {
            Some(v) => if v <= max {
                Some(v as u64)
            } else {
                None
            },
            None => None,
        }),
{
    let b = s.as_bytes();
    if b.len() > 0 && b[0] == 43 {
        assert(b@.skip(1) =~= b@.drop_first());
        parse_digits(b, 1, max)
    } else {
        assert(b@.skip(0) =~= b@);
        parse_digits(b, 0, max)
    }
}

/// Value of a signed decimal number as Rust's `parse` reads it: an
/// optional `+` or `-`, then digits.
pub open spec fn signed_value(b: Seq<u8>) -> Option<int> {
    if b.len() > 0 && b[0] == 45 {
        match digits_value(b.drop_first()) {
            Some(v) => Some(-v),
            None => None,
        }
    } else {
        match unsigned_value(b) {
            Some(v) => Some(v as int),
            None => None,
        }
    }
}

/// Reads a decimal `i32`.
pub fn parse_i32(s: &str) -> (r: Option<i32>)
    ensures
        r == (match signed_value(encode_utf8(s@)) {
            Some(v) => if i32::MIN <= v <= i32::MAX {
                Some(v as i32)
            } else {
                None
            },
            None => None,
        }),
{
    let b = s.as_bytes();
    if b.len() > 0 && b[0] == 45 {
        assert(b@.skip(1) =~= b@.drop_first());
        match parse_digits(b, 1, 0x8000_0000) {
            Some(v) => Some((0 - (v as i64)) as i32),
            None => None,
        }
    } else if b.len() > 0 && b[0] == 43 {
        assert(b@.skip(1) =~= b@.drop_first());
        match parse_digits(b, 1, 0x7fff_ffff) {
            Some(v) => Some(v as i32),
            None => None,
        }
    } else {
        assert(b@.skip(0) =~= b@);
        match parse_digits(b, 0, 0x7fff_ffff) {
            Some(v) => Some(v as i32),
            None => None,
        }
    }
}

/// A byte that is not a digit spoils every longer run.
proof fn lemma_digits_prefix(b: Seq<u8>, k: int)
    requires
        0 < k <= b.len(),
        digits_value(b.take(k)) is None,
    ensures
        digits_value(b) is None,
    decreases b.len(),
{
    if k < b.len() {
        assert(b.drop_last().take(k) =~= b.take(k));
        lemma_digits_prefix(b.drop_last(), k);
    } else {
        assert(b.take(k) =~= b);
    }
}

} // verus!
