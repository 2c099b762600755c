//! Positional binary encoding: the primitives and the generic containers.
//!
//! Every encodable type states its encoding as the spec function `wire`.
//! Encoders append exactly those bytes; decoders accept exactly the inputs
//! that begin with some value's encoding, and return that value. Since the
//! encodings form a prefix code, the value read is the only candidate.
use vstd::prelude::*;
use vstd::utf8::{encode_utf8, valid_utf8, encode_utf8_decode_utf8, encode_utf8_valid_utf8};

use crate::protocol::F32Bits;

verus! {

/// The bytes `e` stand in `s` from index `pos` on.
pub open spec fn occurs_at(s: Seq<u8>, pos: int, e: Seq<u8>) -> bool {
    0 <= pos && pos + e.len() <= s.len() && s.subrange(pos, pos + e.len()) == e
}

pub proof fn lemma_occurs_concat(s: Seq<u8>, pos: int, a: Seq<u8>, b: Seq<u8>)
    ensures
        occurs_at(s, pos, a + b) <==> (occurs_at(s, pos, a) && occurs_at(s, pos + a.len(), b)),
{
    if occurs_at(s, pos, a + b) {
        let whole = s.subrange(pos, pos + a.len() + b.len());
        assert(s.subrange(pos, pos + a.len()) =~= whole.subrange(0, a.len() as int));
        assert(whole.subrange(0, a.len() as int) =~= a);
        assert(s.subrange(pos + a.len(), pos + a.len() + b.len()) =~= whole.subrange(
            a.len() as int,
            (a.len() + b.len()) as int,
        ));
        assert(whole.subrange(a.len() as int, (a.len() + b.len()) as int) =~= b);
    }
    if occurs_at(s, pos, a) && occurs_at(s, pos + a.len(), b) {
        assert(s.subrange(pos, pos + (a + b).len()) =~= a + b) by {
            assert forall|i: int| 0 <= i < a.len() + b.len() implies s.subrange(
                pos,
                pos + (a + b).len(),
            )[i] == (a + b)[i] by {
                if i < a.len() {
                    assert(s.subrange(pos, pos + a.len())[i] == a[i]);
                } else {
                    assert(s.subrange(pos + a.len(), pos + a.len() + b.len())[i - a.len()] == b[i
                        - a.len()]);
                }
            }
        }
    }
}

/// A value that has a positional encoding.
pub trait Wire: Sized {
    /// The bytes that encode `self`.
    spec fn wire(&self) -> Seq<u8>;

    /// `self` and `other` hold the same value; text and lists compare by content.
    spec fn same(&self, other: &Self) -> bool;

    /// Appends the encoding of `self`.
    fn encode(&self, out: &mut Vec<u8>)
        ensures
            final(out)@ == old(out)@ + self.wire(),
    ;

    /// Reads the value whose encoding starts at `pos`, and the index after it.
    fn decode(s: &[u8], pos: usize) -> (r: Option<(Self, usize)>)
        requires
            pos <= s@.len(),
        ensures
            match r {
                Some((x, end)) => {
                    &&& end == pos + x.wire().len()
                    &&& occurs_at(s@, pos as int, x.wire())
                    &&& forall|y: Self| #[trigger]
                        occurs_at(s@, pos as int, y.wire()) ==> y.wire() == x.wire() && y.same(&x)
                },
                None => forall|y: Self| !#[trigger] occurs_at(s@, pos as int, y.wire()),
            },
    ;
}

// ---------------------------------------------------------------- varint

/// Unsigned LEB128: seven bits per byte, low group first, high bit set on
/// every byte but the last.
pub open spec fn varint(n: nat) -> Seq<u8>
    decreases n,
{
    if n < 128 {
        seq![n as u8]
    } else {
        seq![(n % 128 + 128) as u8] + varint(n / 128)
    }
}

pub proof fn lemma_varint_first(n: nat)
    ensures
        varint(n).len() >= 1,
        n < 128 ==> varint(n) == seq![n as u8],
        n >= 128 ==> varint(n)[0] == (n % 128 + 128) as u8 && varint(n) == seq![(n % 128
            + 128) as u8] + varint(n / 128),
{
    reveal_with_fuel(varint, 2);
}

/// Two varints that stand at one place are the same number.
pub proof fn lemma_varint_unique(s: Seq<u8>, pos: int, a: nat, b: nat)
    requires
        occurs_at(s, pos, varint(a)),
        occurs_at(s, pos, varint(b)),
    ensures
        a == b,
    decreases a,
{
    lemma_varint_first(a);
    lemma_varint_first(b);
    assert(s.subrange(pos, pos + varint(a).len())[0] == s[pos]);
    assert(s.subrange(pos, pos + varint(b).len())[0] == s[pos]);
    if a >= 128 && b >= 128 {
        lemma_occurs_concat(s, pos, seq![(a % 128 + 128) as u8], varint(a / 128));
        lemma_occurs_concat(s, pos, seq![(b % 128 + 128) as u8], varint(b / 128));
        lemma_varint_unique(s, pos + 1, a / 128, b / 128);
    }
}

pub fn encode_varint(v: u64, out: &mut Vec<u8>)
    ensures
        final(out)@ == old(out)@ + varint(v as nat),
    decreases v,
{
    proof {
        lemma_varint_first(v as nat);
    }
    if v < 128 {
        out.push(v as u8);
    } else {
        let ghost before = out@;
        out.push((v % 128 + 128) as u8);
        encode_varint(v / 128, out);
        assert(out@ =~= before + varint(v as nat));
    }
}

/// Reads the varint at `pos` whose value is at most `max`.
pub fn decode_varint(s: &[u8], pos: usize, max: u64) -> (r: Option<(u64, usize)>)
    requires
        pos <= s@.len(),
    ensures
        match r {
            Some((v, end)) => v <= max && end == pos + varint(v as nat).len() && occurs_at(
                s@,
                pos as int,
                varint(v as nat),
            ),
            None => forall|n: nat| n <= max ==> !#[trigger] occurs_at(s@, pos as int, varint(n)),
        },
    decreases s@.len() - pos,
{
    if pos >= s.len() {
        proof {
            assert forall|n: nat| n <= max implies !#[trigger] occurs_at(
                s@,
                pos as int,
                varint(n),
            ) by {
                lemma_varint_first(n);
            }
        }
        return None;
    }
    let b = s[pos];
    proof {
        assert forall|n: nat| #[trigger] occurs_at(s@, pos as int, varint(n)) implies varint(n)[0]
            == b by {
            assert(s@.subrange(pos as int, pos + varint(n).len())[0] == s@[pos as int]);
            lemma_varint_first(n);
        }
    }
    if b < 128 {
        proof {
            lemma_varint_first(b as nat);
            assert forall|n: nat| #[trigger] occurs_at(s@, pos as int, varint(n)) implies n
                == b by {
                lemma_varint_first(n);
            }
            if occurs_at(s@, pos as int, varint(b as nat)) {
            } else {
                assert(s@.subrange(pos as int, pos + 1) =~= seq![b]);
            }
        }
        if (b as u64) <= max {
            Some((b as u64, pos + 1))
        } else {
            None
        }
    } else {
        let low = (b - 128) as u64;
        if low > max {
            proof {
                assert forall|n: nat| n <= max implies !#[trigger] occurs_at(
                    s@,
                    pos as int,
                    varint(n),
                ) by {
                    lemma_varint_first(n);
                }
            }
            return None;
        }
        let rest_max = (max - low) / 128;
        if rest_max == 0 {
            proof {
                assert forall|n: nat| n <= max implies !#[trigger] occurs_at(
                    s@,
                    pos as int,
                    varint(n),
                ) by {
                    lemma_varint_first(n);
                }
            }
            return None;
        }
        let inner = decode_varint(s, pos + 1, rest_max);
        proof {
            assert forall|n: nat| n <= max && #[trigger] occurs_at(s@, pos as int, varint(n))
                implies n >= 128 && n % 128 == low && n / 128 <= rest_max && occurs_at(
                s@,
                pos + 1,
                varint(n / 128),
            ) by {
                lemma_varint_first(n);
                lemma_occurs_concat(s@, pos as int, seq![(n % 128 + 128) as u8], varint(n / 128));
            }
        }
        match inner {
            None => None,
            Some((q, end)) => {
                if q == 0 {
                    proof {
                        assert forall|n: nat| n <= max implies !#[trigger] occurs_at(
                            s@,
                            pos as int,
                            varint(n),
                        ) by {
                            if occurs_at(s@, pos as int, varint(n)) {
                                lemma_varint_unique(s@, pos + 1, n / 128, 0);
                            }
                        }
                    }
                    None
                } else {
                    let v = low + 128 * q;
                    proof {
                        lemma_varint_first(v as nat);
                        assert(s@.subrange(pos as int, pos + 1) =~= seq![b]);
                        lemma_occurs_concat(
                            s@,
                            pos as int,
                            seq![(v % 128 + 128) as u8],
                            varint(q as nat),
                        );
                    }
                    Some((v, end))
                }
            },
        }
    }
}

// ---------------------------------------------------------------- integers

impl Wire for u8 {
    open spec fn wire(&self) -> Seq<u8> {
        seq![*self]
    }

    open spec fn same(&self, other: &Self) -> bool {
        *self == *other
    }

    fn encode(&self, out: &mut Vec<u8>) {
        out.push(*self);
    }

    fn decode(s: &[u8], pos: usize) -> (r: Option<(Self, usize)>) {
        if pos < s.len() {
            let b = s[pos];
            proof {
                assert(s@.subrange(pos as int, pos + 1) =~= seq![b]);
                assert forall|y: u8| #[trigger] occurs_at(s@, pos as int, y.wire()) implies y == b by {
                    assert(s@.subrange(pos as int, pos + 1)[0] == s@[pos as int]);
                }
            }
            Some((b, pos + 1))
        } else {
            None
        }
    }
}

pub open spec fn bool_byte(b: bool) -> u8 {
    if b {
        1
    } else {
        0
    }
}

impl Wire for bool {
    open spec fn wire(&self) -> Seq<u8> {
        seq![bool_byte(*self)]
    }

    open spec fn same(&self, other: &Self) -> bool {
        *self == *other
    }

    fn encode(&self, out: &mut Vec<u8>) {
        out.push(if *self { 1 } else { 0 });
    }

    fn decode(s: &[u8], pos: usize) -> (r: Option<(Self, usize)>) {
        if pos >= s.len() {
            return None;
        }
        let b = s[pos];
        proof {
            assert(s@.subrange(pos as int, pos + 1) =~= seq![b]);
            assert forall|y: bool| #[trigger] occurs_at(s@, pos as int, y.wire()) implies bool_byte(
                y,
            ) == b by {
                assert(s@.subrange(pos as int, pos + 1)[0] == s@[pos as int]);
            }
        }
        if b == 0 {
            Some((false, pos + 1))
        } else if b == 1 {
            Some((true, pos + 1))
        } else {
            None
        }
    }
}

impl Wire for usize {
    open spec fn wire(&self) -> Seq<u8> {
        varint(*self as nat)
    }

    open spec fn same(&self, other: &Self) -> bool {
        *self == *other
    }

    fn encode(&self, out: &mut Vec<u8>) {
        encode_varint(*self as u64, out);
    }

    fn decode(s: &[u8], pos: usize) -> (r: Option<(Self, usize)>) {
        match decode_varint(s, pos, usize::MAX as u64) {
            Some((v, end)) => {
                proof {
                    assert forall|y: usize| #[trigger] occurs_at(s@, pos as int, y.wire()) implies y
                        == v by {
                        lemma_varint_unique(s@, pos as int, y as nat, v as nat);
                    }
                }
                Some((v as usize, end))
            },
            None => {
                proof {
                    assert forall|y: usize| !#[trigger] occurs_at(s@, pos as int, y.wire()) by {
                        assert(y as nat <= usize::MAX as u64);
                    }
                }
                None
            },
        }
    }
}

/// Zigzag: 0, -1, 1, -2, ... map to 0, 1, 2, 3, ...
pub open spec fn zigzag(x: i32) -> nat {
    if x >= 0 {
        (2 * x) as nat
    } else {
        (-2 * x - 1) as nat
    }
}

impl Wire for i32 {
    open spec fn wire(&self) -> Seq<u8> {
        varint(zigzag(*self))
    }

    open spec fn same(&self, other: &Self) -> bool {
        *self == *other
    }

    fn encode(&self, out: &mut Vec<u8>) {
        let x = *self;
        let z: u64 = if x >= 0 {
            2 * (x as u64)
        } else {
            2 * ((-(x as i64)) as u64) - 1
        };
        encode_varint(z, out);
    }

    fn decode(s: &[u8], pos: usize) -> (r: Option<(Self, usize)>) {
        match decode_varint(s, pos, 0xffff_ffff) {
            Some((v, end)) => {
                let x: i32 = if v % 2 == 0 {
                    (v / 2) as i32
                } else {
                    -((v / 2) as i32) - 1
                };
                proof {
                    assert(zigzag(x) == v);
                    assert forall|y: i32| #[trigger] occurs_at(s@, pos as int, y.wire()) implies y
                        == x by {
                        lemma_varint_unique(s@, pos as int, zigzag(y), v as nat);
                    }
                }
                Some((x, end))
            },
            None => {
                proof {
                    assert forall|y: i32| !#[trigger] occurs_at(s@, pos as int, y.wire()) by {
                        assert(zigzag(y) <= 0xffff_ffff);
                    }
                }
                None
            },
        }
    }
}

/// Four bytes, least significant first.
pub open spec fn le_bytes(v: u32) -> Seq<u8> {
    seq![(v & 0xff) as u8, ((v >> 8u32) & 0xff) as u8, ((v >> 16u32) & 0xff) as u8, (v >> 24u32) as u8]
}

impl Wire for F32Bits {
    open spec fn wire(&self) -> Seq<u8> {
        le_bytes(self.0)
    }

    open spec fn same(&self, other: &Self) -> bool {
        *self == *other
    }

    fn encode(&self, out: &mut Vec<u8>) {
        let v = self.0;
        let ghost before = out@;
        out.push((v & 0xff) as u8);
        out.push(((v >> 8u32) & 0xff) as u8);
        out.push(((v >> 16u32) & 0xff) as u8);
        out.push((v >> 24u32) as u8);
        assert(out@ =~= before + self.wire());
    }

    fn decode(s: &[u8], pos: usize) -> (r: Option<(Self, usize)>) {
        if s.len() - pos < 4 {
            return None;
        }
        let b0 = s[pos] as u32;
        let b1 = s[pos + 1] as u32;
        let b2 = s[pos + 2] as u32;
        let b3 = s[pos + 3] as u32;
        let v = b0 | (b1 << 8u32) | (b2 << 16u32) | (b3 << 24u32);
        proof {
            assert(b0 < 256 && b1 < 256 && b2 < 256 && b3 < 256 ==> (v & 0xff) == b0 && ((v
                >> 8u32) & 0xff) == b1 && ((v >> 16u32) & 0xff) == b2 && (v >> 24u32) == b3)
                by (bit_vector)
                requires
                    v == b0 | (b1 << 8u32) | (b2 << 16u32) | (b3 << 24u32),
            ;
            let here = s@.subrange(pos as int, pos + 4);
            assert(here =~= le_bytes(v));
            assert forall|y: F32Bits| #[trigger] occurs_at(s@, pos as int, y.wire()) implies y
                == F32Bits(v) by {
                let w = y.0;
                assert(here[0] == le_bytes(w)[0]);
                assert(here[1] == le_bytes(w)[1]);
                assert(here[2] == le_bytes(w)[2]);
                assert(here[3] == le_bytes(w)[3]);
                assert(((w & 0xff) as u8) == ((v & 0xff) as u8) && (((w >> 8u32) & 0xff) as u8)
                    == (((v >> 8u32) & 0xff) as u8) && (((w >> 16u32) & 0xff) as u8) == (((v
                    >> 16u32) & 0xff) as u8) && ((w >> 24u32) as u8) == ((v >> 24u32) as u8) ==> w
                    == v) by (bit_vector);
            }
        }
        Some((F32Bits(v), pos + 4))
    }
}

// ---------------------------------------------------------------- text

/// Relies on std::str::from_utf8: it accepts exactly the well-formed UTF-8
/// byte strings, and the text it returns is made of those bytes.
#[verifier::external_body]
fn utf8_text(b: &[u8]) -> (r: Option<String>)
    ensures
        r is Some <==> valid_utf8(b@),
        r matches Some(t) ==> encode_utf8(t@) == b@,
{
    std::str::from_utf8(b).ok().map(|t| t.to_string())
}

impl Wire for String {
    open spec fn wire(&self) -> Seq<u8> {
        varint(encode_utf8(self@).len()) + encode_utf8(self@)
    }

    open spec fn same(&self, other: &Self) -> bool {
        self@ == other@
    }

    fn encode(&self, out: &mut Vec<u8>) {
        let bytes = self.as_str().as_bytes();
        let ghost start = out@;
        encode_varint(bytes.len() as u64, out);
        let ghost mid = out@;
        let mut i: usize = 0;
        while i < bytes.len()
            invariant
                i <= bytes@.len(),
                bytes@ == encode_utf8(self@),
                out@ == mid + bytes@.subrange(0, i as int),
                mid == start + varint(bytes@.len()),
            decreases bytes@.len() - i,
        {
            out.push(bytes[i]);
            i = i + 1;
            assert(out@ =~= mid + bytes@.subrange(0, i as int));
        }
        assert(bytes@.subrange(0, i as int) =~= bytes@);
    }

    fn decode(s: &[u8], pos: usize) -> (r: Option<(Self, usize)>) {
        let total = s.len();
        let (n, start) = match decode_varint(s, pos, usize::MAX as u64) {
            Some(p) => p,
            None => {
                proof {
                    assert forall|y: String| !#[trigger] occurs_at(s@, pos as int, y.wire()) by {
                        lemma_occurs_concat(
                            s@,
                            pos as int,
                            varint(encode_utf8(y@).len()),
                            encode_utf8(y@),
                        );
                        if occurs_at(s@, pos as int, y.wire()) {
                            assert(encode_utf8(y@).len() <= total);
                        }
                    }
                }
                return None;
            },
        };
        proof {
            assert forall|y: String| #[trigger] occurs_at(s@, pos as int, y.wire()) implies encode_utf8(
                y@,
            ).len() == n && occurs_at(s@, start as int, encode_utf8(y@)) by {
                lemma_occurs_concat(s@, pos as int, varint(encode_utf8(y@).len()), encode_utf8(y@));
                lemma_varint_unique(s@, pos as int, encode_utf8(y@).len(), n as nat);
            }
        }
        if (n as usize) > s.len() - start {
            return None;
        }
        let end = start + n as usize;
        let body = &s[start..end];
        assert(body@ == s@.subrange(start as int, end as int));
        let text = utf8_text(body);
        match text {
            Some(t) => {
                proof {
                    lemma_occurs_concat(s@, pos as int, varint(n as nat), encode_utf8(t@));
                    assert forall|y: String| #[trigger] occurs_at(s@, pos as int, y.wire()) implies y.wire()
                        == t.wire() && y.same(&t) by {
                        encode_utf8_decode_utf8(y@);
                        encode_utf8_decode_utf8(t@);
                    }
                }
                Some((t, end))
            },
            None => {
                assert(!valid_utf8(body@));
                proof {
                    assert forall|y: String| !#[trigger] occurs_at(s@, pos as int, y.wire()) by {
                        encode_utf8_valid_utf8(y@);
                        if occurs_at(s@, pos as int, y.wire()) {
                            assert(encode_utf8(y@).len() == n);
                            assert(occurs_at(s@, start as int, encode_utf8(y@)));
                            assert(body@ == encode_utf8(y@));
                            assert(valid_utf8(body@));
                        }
                    }
                }
                None
            },
        }
    }
}

// ---------------------------------------------------------------- option

impl<T: Wire> Wire for Option<T> {
    open spec fn wire(&self) -> Seq<u8> {
        match self {
            None => seq![0u8],
            Some(x) => seq![1u8] + x.wire(),
        }
    }

    open spec fn same(&self, other: &Self) -> bool {
        match (self, other) {
            (None, None) => true,
            (Some(a), Some(b)) => a.same(b),
            _ => false,
        }
    }

    fn encode(&self, out: &mut Vec<u8>) {
        match self {
            None => {
                out.push(0);
            },
            Some(x) => {
                let ghost before = out@;
                out.push(1);
                x.encode(out);
                assert(out@ =~= before + self.wire());
            },
        }
    }

    fn decode(s: &[u8], pos: usize) -> (r: Option<(Self, usize)>) {
        if pos >= s.len() {
            return None;
        }
        let b = s[pos];
        proof {
            assert(s@.subrange(pos as int, pos + 1) =~= seq![b]);
            assert forall|y: Option<T>| #[trigger] occurs_at(s@, pos as int, y.wire()) implies (
            y is None ==> b == 0) && (y is Some ==> b == 1 && occurs_at(
                s@,
                pos + 1,
                y->Some_0.wire(),
            )) by {
                assert(s@.subrange(pos as int, pos + y.wire().len())[0] == s@[pos as int]);
                if let Some(x) = y {
                    lemma_occurs_concat(s@, pos as int, seq![1u8], x.wire());
                }
            }
        }
        if b == 0 {
            Some((None, pos + 1))
        } else if b == 1 {
            match T::decode(s, pos + 1) {
                Some((x, end)) => {
                    proof {
                        lemma_occurs_concat(s@, pos as int, seq![1u8], x.wire());
                    }
                    Some((Some(x), end))
                },
                None => None,
            }
        } else {
            None
        }
    }
}

// ---------------------------------------------------------------- sequences

/// The encodings of the items of `v`, one after the other.
pub open spec fn seq_wire<T: Wire>(v: Seq<T>) -> Seq<u8>
    decreases v.len(),
{
    if v.len() == 0 {
        Seq::empty()
    } else {
        seq_wire(v.drop_last()) + v.last().wire()
    }
}

/// `a` and `b` hold the same items.
pub open spec fn seq_same<T: Wire>(a: Seq<T>, b: Seq<T>) -> bool {
    a.len() == b.len() && forall|i: int| 0 <= i < a.len() ==> #[trigger] a[i].same(&b[i])
}

pub proof fn lemma_seq_wire_push<T: Wire>(v: Seq<T>, x: T)
    ensures
        seq_wire(v.push(x)) == seq_wire(v) + x.wire(),
{
    assert(v.push(x).drop_last() =~= v);
}

pub proof fn lemma_seq_wire_split<T: Wire>(v: Seq<T>, k: int)
    requires
        0 <= k <= v.len(),
    ensures
        seq_wire(v) == seq_wire(v.take(k)) + seq_wire(v.skip(k)),
    decreases v.len(),
{
    if k == v.len() {
        assert(v.take(k) =~= v);
        assert(v.skip(k) =~= Seq::<T>::empty());
        assert(seq_wire(v) + Seq::<u8>::empty() =~= seq_wire(v));
    } else {
        let d = v.drop_last();
        lemma_seq_wire_split(d, k);
        assert(d.take(k) =~= v.take(k));
        assert(v.skip(k).drop_last() =~= d.skip(k));
        assert(v.skip(k).last() == v.last());
        assert(seq_wire(v) =~= seq_wire(v.take(k)) + seq_wire(v.skip(k)));
    }
}

/// Appends the encodings of the items of `v`.
pub fn encode_items<T: Wire>(v: &[T], out: &mut Vec<u8>)
    ensures
        final(out)@ == old(out)@ + seq_wire(v@),
{
    let ghost start = out@;
    let mut i: usize = 0;
    while i < v.len()
        invariant
            i <= v@.len(),
            out@ == start + seq_wire(v@.take(i as int)),
        decreases v@.len() - i,
    {
        proof {
            lemma_seq_wire_push(v@.take(i as int), v@[i as int]);
            assert(v@.take(i as int).push(v@[i as int]) =~= v@.take(i + 1));
        }
        v[i].encode(out);
        i = i + 1;
        assert(out@ =~= start + seq_wire(v@.take(i as int)));
    }
    assert(v@.take(i as int) =~= v@);
}

/// Reads `n` values one after the other.
pub fn decode_items<T: Wire>(s: &[u8], pos: usize, n: usize) -> (r: Option<(Vec<T>, usize)>)
    requires
        pos <= s@.len(),
    ensures
        match r {
            Some((v, end)) => {
                &&& v@.len() == n
                &&& end == pos + seq_wire(v@).len()
                &&& occurs_at(s@, pos as int, seq_wire(v@))
                &&& forall|z: Seq<T>|
                    z.len() == n && #[trigger] occurs_at(s@, pos as int, seq_wire(z)) ==> seq_wire(z)
                        == seq_wire(v@) && seq_same(z, v@)
            },
            None => forall|z: Seq<T>|
                z.len() == n ==> !#[trigger] occurs_at(s@, pos as int, seq_wire(z)),
        },
{
    let mut items: Vec<T> = Vec::new();
    let mut p = pos;
    let mut i: usize = 0;
    proof {
        assert(s@.subrange(pos as int, pos as int) =~= Seq::<u8>::empty());
        assert forall|z: Seq<T>| z.len() == 0 && #[trigger] occurs_at(s@, pos as int, seq_wire(z))
            implies seq_wire(z) == seq_wire(items@) && seq_same(z, items@) by {
            assert(z =~= items@);
        }
    }
    while i < n
        invariant
            i <= n,
            items@.len() == i,
            pos <= p <= s@.len(),
            p == pos + seq_wire(items@).len(),
            occurs_at(s@, pos as int, seq_wire(items@)),
            forall|z: Seq<T>|
                z.len() == i && #[trigger] occurs_at(s@, pos as int, seq_wire(z)) ==> seq_wire(z)
                    == seq_wire(items@) && seq_same(z, items@),
        decreases n - i,
    {
        match T::decode(s, p) {
            Some((x, end)) => {
                let ghost old_items = items@;
                proof {
                    lemma_seq_wire_push(old_items, x);
                    lemma_occurs_concat(s@, pos as int, seq_wire(old_items), x.wire());
                    assert forall|z: Seq<T>|
                        z.len() == i + 1 && #[trigger] occurs_at(s@, pos as int, seq_wire(z))
                        implies seq_wire(z) == seq_wire(old_items.push(x)) && seq_same(
                        z,
                        old_items.push(x),
                    ) by {
                        let d = z.drop_last();
                        lemma_occurs_concat(s@, pos as int, seq_wire(d), z.last().wire());
                        assert(seq_wire(d) == seq_wire(old_items) && seq_same(d, old_items));
                        assert(z.last().wire() == x.wire() && z.last().same(&x));
                        assert forall|j: int| 0 <= j < z.len() implies #[trigger] z[j].same(
                            &old_items.push(x)[j],
                        ) by {
                            if j < i {
                                assert(d[j].same(&old_items[j]));
                            }
                        }
                    }
                }
                items.push(x);
                p = end;
                i = i + 1;
            },
            None => {
                proof {
                    assert forall|z: Seq<T>| z.len() == n implies !#[trigger] occurs_at(
                        s@,
                        pos as int,
                        seq_wire(z),
                    ) by {
                        if occurs_at(s@, pos as int, seq_wire(z)) {
                            let w = z.take(i + 1);
                            lemma_seq_wire_split(z, i + 1);
                            lemma_occurs_concat(s@, pos as int, seq_wire(w), seq_wire(z.skip(i + 1)));
                            assert(w.drop_last() =~= z.take(i as int));
                            lemma_occurs_concat(s@, pos as int, seq_wire(w.drop_last()), w.last().wire());
                            assert(seq_wire(z.take(i as int)) == seq_wire(items@));
                        }
                    }
                }
                return None;
            },
        }
    }
    Some((items, p))
}

impl<T: Wire> Wire for Vec<T> {
    open spec fn wire(&self) -> Seq<u8> {
        varint(self@.len()) + seq_wire(self@)
    }

    open spec fn same(&self, other: &Self) -> bool {
        seq_same(self@, other@)
    }

    fn encode(&self, out: &mut Vec<u8>) {
        let ghost start = out@;
        encode_varint(self.len() as u64, out);
        encode_items(self.as_slice(), out);
        assert(out@ =~= start + self.wire());
    }

    fn decode(s: &[u8], pos: usize) -> (r: Option<(Self, usize)>) {
        proof {
            assert forall|y: Vec<T>| #[trigger] occurs_at(s@, pos as int, y.wire()) implies occurs_at(
                s@,
                pos as int,
                varint(y@.len()),
            ) && occurs_at(s@, pos + varint(y@.len()).len(), seq_wire(y@)) && y@.len()
                <= usize::MAX by {
                lemma_occurs_concat(s@, pos as int, varint(y@.len()), seq_wire(y@));
                assert(y@.len() == y.len());
            }
        }
        let (n, start) = match decode_varint(s, pos, usize::MAX as u64) {
            Some(p) => p,
            None => {
                return None;
            },
        };
        proof {
            assert forall|y: Vec<T>| #[trigger] occurs_at(s@, pos as int, y.wire()) implies y@.len()
                == n by {
                lemma_varint_unique(s@, pos as int, y@.len(), n as nat);
            }
        }
        match decode_items::<T>(s, start, n as usize) {
            Some((v, end)) => {
                proof {
                    lemma_occurs_concat(s@, pos as int, varint(v@.len()), seq_wire(v@));
                }
                Some((v, end))
            },
            None => None,
        }
    }
}

// ---------------------------------------------------------------- arrays

/// Fixed-size arrays carry no length: both ends know it.
pub fn decode_array<T: Wire + Copy, const N: usize>(s: &[u8], pos: usize) -> (r: Option<([T; N], usize)>)
    requires
        pos <= s@.len(),
        N >= 1,
    ensures
        match r {
            Some((x, end)) => {
                &&& end == pos + seq_wire(x@).len()
                &&& occurs_at(s@, pos as int, seq_wire(x@))
                &&& forall|y: [T; N]| #[trigger]
                    occurs_at(s@, pos as int, seq_wire(y@)) ==> seq_wire(y@) == seq_wire(x@)
                        && seq_same(y@, x@)
            },
            None => forall|y: [T; N]| !#[trigger] occurs_at(s@, pos as int, seq_wire(y@)),
        },
{
    match decode_items::<T>(s, pos, N) {
        Some((v, end)) => {
            let mut a: [T; N] = [v[0]; N];
            let mut i: usize = 1;
            while i < N
                invariant
                    1 <= i <= N,
                    v@.len() == N,
                    forall|j: int| 0 <= j < i ==> a@[j] == v@[j],
                decreases N - i,
            {
                a[i] = v[i];
                i = i + 1;
            }
            assert(a@ =~= v@);
            Some((a, end))
        },
        None => None,
    }
}

impl<T: Wire + Copy> Wire for [T; 2] {
    open spec fn wire(&self) -> Seq<u8> {
        seq_wire(self@)
    }

    open spec fn same(&self, other: &Self) -> bool {
        seq_same(self@, other@)
    }

    fn encode(&self, out: &mut Vec<u8>) {
        encode_items(self.as_slice(), out);
    }

    fn decode(s: &[u8], pos: usize) -> (r: Option<(Self, usize)>) {
        decode_array::<T, 2>(s, pos)
    }
}

impl<T: Wire + Copy> Wire for [T; 3] {
    open spec fn wire(&self) -> Seq<u8> {
        seq_wire(self@)
    }

    open spec fn same(&self, other: &Self) -> bool {
        seq_same(self@, other@)
    }

    fn encode(&self, out: &mut Vec<u8>) {
        encode_items(self.as_slice(), out);
    }

    fn decode(s: &[u8], pos: usize) -> (r: Option<(Self, usize)>) {
        decode_array::<T, 3>(s, pos)
    }
}

impl<T: Wire + Copy> Wire for [T; 16] {
    open spec fn wire(&self) -> Seq<u8> {
        seq_wire(self@)
    }

    open spec fn same(&self, other: &Self) -> bool {
        seq_same(self@, other@)
    }

    fn encode(&self, out: &mut Vec<u8>) {
        encode_items(self.as_slice(), out);
    }

    fn decode(s: &[u8], pos: usize) -> (r: Option<(Self, usize)>) {
        decode_array::<T, 16>(s, pos)
    }
}

// ---------------------------------------------------------------- variants

/// An enum whose variants carry no data; on the wire a variant is its
/// declaration index.
pub trait Tag: Sized + Copy {
    /// Declaration index of the variant.
    spec fn spec_tag(&self) -> nat;

    /// Number of variants.
    spec fn count() -> nat;

    proof fn lemma_tag_range(&self)
        ensures
            self.spec_tag() < Self::count() <= 0xffff_ffff,
    ;

    fn tag(&self) -> (r: u32)
        ensures
            r == self.spec_tag(),
            r < Self::count(),
    ;

    /// The variant declared at index `t`, if there are that many.
    fn from_tag(t: u32) -> (r: Option<Self>)
        ensures
            match r {
                Some(e) => e.spec_tag() == t,
                None => t >= Self::count(),
            },
            forall|e: Self| #[trigger] e.spec_tag() == t ==> r == Some(e),
    ;
}

pub fn encode_tag<E: Tag>(e: &E, out: &mut Vec<u8>)
    ensures
        final(out)@ == old(out)@ + varint(e.spec_tag()),
{
    encode_varint(e.tag() as u64, out);
}

pub fn decode_tag<E: Tag>(s: &[u8], pos: usize) -> (r: Option<(E, usize)>)
    requires
        pos <= s@.len(),
    ensures
        match r {
            Some((x, end)) => {
                &&& end == pos + varint(x.spec_tag()).len()
                &&& occurs_at(s@, pos as int, varint(x.spec_tag()))
                &&& forall|y: E| #[trigger]
                    occurs_at(s@, pos as int, varint(y.spec_tag())) ==> y == x
            },
            None => forall|y: E| !#[trigger] occurs_at(s@, pos as int, varint(y.spec_tag())),
        },
{
    match decode_varint(s, pos, 0xffff_ffff) {
        Some((v, end)) => {
            let t = E::from_tag(v as u32);
            proof {
                assert forall|y: E| #[trigger] occurs_at(s@, pos as int, varint(y.spec_tag())) implies y.spec_tag()
                    == v by {
                    lemma_varint_unique(s@, pos as int, y.spec_tag(), v as nat);
                }
            }
            match t {
                Some(e) => Some((e, end)),
                None => None,
            }
        },
        None => {
            proof {
                assert forall|y: E| !#[trigger] occurs_at(s@, pos as int, varint(y.spec_tag())) by {
                    y.lemma_tag_range();
                }
            }
            None
        },
    }
}

impl Wire for (u8, usize, u8) {
    open spec fn wire(&self) -> Seq<u8> {
        self.0.wire() + self.1.wire() + self.2.wire()
    }

    open spec fn same(&self, other: &Self) -> bool {
        *self == *other
    }

    fn encode(&self, out: &mut Vec<u8>) {
        let ghost start = out@;
        self.0.encode(out);
        self.1.encode(out);
        self.2.encode(out);
        assert(out@ =~= start + self.wire());
    }

    fn decode(s: &[u8], pos: usize) -> (r: Option<(Self, usize)>) {
        broadcast use lemma_occurs_concat_auto;

        let (a, p1) = match u8::decode(s, pos) {
            Some(x) => x,
            None => return None,
        };
        let (b, p2) = match usize::decode(s, p1) {
            Some(x) => x,
            None => return None,
        };
        let (c, p3) = match u8::decode(s, p2) {
            Some(x) => x,
            None => return None,
        };
        Some(((a, b, c), p3))
    }
}

pub broadcast proof fn lemma_occurs_concat_auto(s: Seq<u8>, pos: int, a: Seq<u8>, b: Seq<u8>)
    ensures
        #[trigger] occurs_at(s, pos, a + b) <==> (occurs_at(s, pos, a) && occurs_at(
            s,
            pos + a.len(),
            b,
        )),
{
    lemma_occurs_concat(s, pos, a, b);
}

} // verus!
