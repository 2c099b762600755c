//! Framing: a two-byte big-endian length prefix and the payload, byte
//! stuffed with COBS so that no zero byte remains, then one zero byte as
//! the delimiter. Frames are cut from an accumulation buffer that the
//! transport fills with chunks of any size.
use vstd::prelude::*;

use crate::codec::{decodes_to, decodes_to_nothing, lemma_round_trip, FpError};
use crate::protocol::ConfigMsgOut;
use crate::wire::Wire;

verus! {

/// The byte that ends every frame.
pub const FRAME_DELIMITER: u8 = 0;

/// The COBS encoding of `b`, as the cobs crate computes it.
pub uninterp spec fn cobs_encoding(b: Seq<u8>) -> Seq<u8>;

/// The COBS decoding of `b`, as the cobs crate computes it; `None` where
/// `b` is not well-formed.
pub uninterp spec fn cobs_decoding(b: Seq<u8>) -> Option<Seq<u8>>;

/// Relies on cobs::encode_vec: it returns the COBS encoding of `src`, which
/// holds no zero byte, is at least as long as `src` (two bytes or more where
/// `src` is not empty), and which COBS decoding turns back into `src`.
#[verifier::external_body]
fn cobs_encode(src: &[u8]) -> (r: Vec<u8>)
    ensures
        r@ == cobs_encoding(src@),
        r@.len() >= src@.len(),
        src@.len() > 0 ==> r@.len() >= 2,
        forall|i: int| 0 <= i < r@.len() ==> r@[i] != 0,
        cobs_decoding(r@) == Some(src@),
{
    cobs::encode_vec(src)
}

/// Relies on cobs::decode_in_place: it decodes the COBS data in `src`, or
/// fails where a run length would read past the end.
#[verifier::external_body]
fn cobs_decode(src: &[u8]) -> (r: Option<Vec<u8>>)
    ensures
        match r {
            Some(v) => cobs_decoding(src@) == Some(v@),
            None => cobs_decoding(src@) is None,
        },
{
    let mut buf = src.to_vec();
    match cobs::decode_in_place(&mut buf) {
        Ok(n) => {
            buf.truncate(n);
            Some(buf)
        },
        Err(()) => None,
    }
}

/// Removes every zero byte from `payload`, reversibly.
pub fn stuff(payload: &[u8]) -> (r: Vec<u8>)
    ensures
        r@ == cobs_encoding(payload@),
        r@.len() >= payload@.len(),
        payload@.len() > 0 ==> r@.len() >= 2,
        forall|i: int| 0 <= i < r@.len() ==> r@[i] != 0,
        cobs_decoding(r@) == Some(payload@),
{
    cobs_encode(payload)
}

/// The inverse of `stuff`.
pub fn unstuff(bytes: &[u8]) -> (r: Result<Vec<u8>, FpError>)
    ensures
        match r {
            Ok(p) => cobs_decoding(bytes@) == Some(p@),
            Err(e) => e == FpError::FramingError && cobs_decoding(bytes@) is None,
        },
{
    match cobs_decode(bytes) {
        Some(p) => Ok(p),
        None => Err(FpError::FramingError),
    }
}

/// The payload behind its two-byte big-endian length.
pub open spec fn length_prefixed(p: Seq<u8>) -> Seq<u8> {
    seq![((p.len() / 256) % 256) as u8, (p.len() % 256) as u8] + p
}

/// The frame that carries `p`.
pub open spec fn frame_of(p: Seq<u8>) -> Seq<u8> {
    cobs_encoding(length_prefixed(p)).push(FRAME_DELIMITER)
}

/// What a frame carries: the trailing delimiter (if any) is dropped, the
/// rest unstuffed, and the length prefix must match what follows it.
pub open spec fn frame_payload(frame: Seq<u8>) -> Option<Seq<u8>> {
    let body = if frame.len() > 0 && frame.last() == FRAME_DELIMITER {
        frame.drop_last()
    } else {
        frame
    };
    match cobs_decoding(body) {
        Some(x) => if x.len() >= 2 && x[0] as nat * 256 + x[1] as nat == x.len() - 2 {
            Some(x.skip(2))
        } else {
            None
        },
        None => None,
    }
}

/// `s@[from..]` as a new vector.
fn copy_tail(s: &[u8], from: usize) -> (r: Vec<u8>)
    requires
        from <= s@.len(),
    ensures
        r@ == s@.skip(from as int),
{
    let mut out: Vec<u8> = Vec::new();
    let mut i = from;
    while i < s.len()
        invariant
            from <= i <= s@.len(),
            out@ == s@.subrange(from as int, i as int),
        decreases s@.len() - i,
    {
        out.push(s[i]);
        i = i + 1;
        assert(out@ =~= s@.subrange(from as int, i as int));
    }
    assert(out@ =~= s@.skip(from as int));
    out
}

/// Frames `payload` for the wire. Only payloads under 64 KiB have a length
/// that the prefix can hold; longer ones get it modulo 65536.
pub fn encode_frame(payload: &[u8]) -> (r: Vec<u8>)
    ensures
        r@ == frame_of(payload@),
        r@.len() >= payload@.len() + 3,
        r@.last() == FRAME_DELIMITER,
        forall|i: int| 0 <= i < r@.len() - 1 ==> r@[i] != FRAME_DELIMITER,
        payload@.len() <= 0xffff ==> frame_payload(r@) == Some(payload@),
        r@.len() <= 0x10002 ==> frame_payload(r@) == Some(payload@),
{
    let n = payload.len();
    let mut with_len: Vec<u8> = Vec::new();
    with_len.push(((n / 256) % 256) as u8);
    with_len.push((n % 256) as u8);
    let mut i: usize = 0;
    while i < n
        invariant
            n == payload@.len(),
            i <= n,
            with_len@ == seq![((n / 256) % 256) as u8, (n % 256) as u8] + payload@.subrange(
                0,
                i as int,
            ),
        decreases n - i,
    {
        with_len.push(payload[i]);
        i = i + 1;
        assert(with_len@ =~= seq![((n / 256) % 256) as u8, (n % 256) as u8] + payload@.subrange(
            0,
            i as int,
        ));
    }
    assert(payload@.subrange(0, n as int) =~= payload@);
    assert(with_len@ == length_prefixed(payload@));
    let mut frame = stuff(with_len.as_slice());
    let ghost stuffed = frame@;
    frame.push(FRAME_DELIMITER);
    proof {
        assert(frame@.drop_last() =~= stuffed);
        if n <= 0xffff {
            assert(((n / 256) % 256) as u8 as nat * 256 + (n % 256) as u8 as nat == n);
            assert(with_len@.skip(2) =~= payload@);
        }
    }
    frame
}

/// Reads the payload of one frame.
pub fn decode_frame(frame: &[u8]) -> (r: Result<Vec<u8>, FpError>)
    ensures
        match r {
            Ok(p) => frame_payload(frame@) == Some(p@),
            Err(e) => e == FpError::FramingError && frame_payload(frame@) is None,
        },
{
    let len = frame.len();
    let body_len = if len > 0 && frame[len - 1] == FRAME_DELIMITER {
        len - 1
    } else {
        len
    };
    let body = &frame[0..body_len];
    proof {
        if len > 0 && frame@.last() == FRAME_DELIMITER {
            assert(body@ =~= frame@.drop_last());
        } else {
            assert(body@ =~= frame@);
        }
    }
    let decoded = match unstuff(body) {
        Ok(d) => d,
        Err(e) => return Err(e),
    };
    if decoded.len() < 2 {
        return Err(FpError::FramingError);
    }
    let declared = decoded[0] as usize * 256 + decoded[1] as usize;
    if declared != decoded.len() - 2 {
        return Err(FpError::FramingError);
    }
    Ok(copy_tail(decoded.as_slice(), 2))
}

/// The frame that carries the encoding of `msg`.
pub fn encode_message_frame<T: Wire>(msg: &T) -> (r: Vec<u8>)
    ensures
        r@ == frame_of(msg.wire()),
        r@.len() >= msg.wire().len() + 3,
        r@.last() == FRAME_DELIMITER,
        forall|i: int| 0 <= i < r@.len() - 1 ==> r@[i] != FRAME_DELIMITER,
        msg.wire().len() <= 0xffff ==> frame_payload(r@) == Some(msg.wire()),
        r@.len() <= 0x10002 ==> frame_payload(r@) == Some(msg.wire()),
{
    let bytes = crate::codec::encode_message(msg);
    encode_frame(bytes.as_slice())
}

/// `res` is what reading a message from `frame` gives.
pub open spec fn message_from_frame<T: Wire>(frame: Seq<u8>, res: Result<T, FpError>) -> bool {
    match res {
        Ok(m) => frame_payload(frame) is Some && decodes_to(frame_payload(frame)->0, m),
        Err(e) => {
            ||| e == FpError::FramingError && frame_payload(frame) is None
            ||| e == FpError::DecodeError && frame_payload(frame) is Some && decodes_to_nothing::<T>(
                frame_payload(frame)->0,
            )
        },
    }
}

/// Reads the message that one frame carries.
pub fn decode_message_frame<T: Wire>(frame: &[u8]) -> (r: Result<T, FpError>)
    ensures
        message_from_frame(frame@, r),
{
    let payload = match decode_frame(frame) {
        Ok(p) => p,
        Err(e) => return Err(e),
    };
    crate::codec::decode_message(payload.as_slice())
}

/// A message put in a frame comes out of it unchanged.
pub proof fn lemma_frame_round_trip<T: Wire>(x: T, res: Result<T, FpError>)
    requires
        x.wire().len() <= 0xffff,
        message_from_frame(frame_of(x.wire()), res),
        frame_payload(frame_of(x.wire())) == Some(x.wire()),
    ensures
        res matches Ok(m) && m.wire() == x.wire() && x.same(&m),
{
    lemma_round_trip(x, Seq::empty());
    assert(x.wire() + Seq::<u8>::empty() =~= x.wire());
}

// ---------------------------------------------------------------- streams

/// Index of the first delimiter in `b`, or its length if there is none.
pub open spec fn delim_index(b: Seq<u8>) -> nat
    decreases b.len(),
{
    if b.len() == 0 {
        0
    } else if b[0] == FRAME_DELIMITER {
        0
    } else {
        1 + delim_index(b.drop_first())
    }
}

/// The complete frames in `b`, in order.
pub open spec fn frames_of(b: Seq<u8>) -> Seq<Seq<u8>>
    decreases b.len(),
{
    let d = delim_index(b);
    if d < b.len() {
        seq![b.take((d + 1) as int)] + frames_of(b.skip((d + 1) as int))
    } else {
        Seq::empty()
    }
}

/// What remains of `b` after its complete frames.
pub open spec fn leftover(b: Seq<u8>) -> Seq<u8>
    decreases b.len(),
{
    let d = delim_index(b);
    if d < b.len() {
        leftover(b.skip((d + 1) as int))
    } else {
        b
    }
}

pub proof fn lemma_delim_index(b: Seq<u8>)
    ensures
        delim_index(b) <= b.len(),
        forall|j: int| 0 <= j < delim_index(b) ==> b[j] != FRAME_DELIMITER,
        delim_index(b) < b.len() ==> b[delim_index(b) as int] == FRAME_DELIMITER,
    decreases b.len(),
{
    if b.len() > 0 && b[0] != FRAME_DELIMITER {
        lemma_delim_index(b.drop_first());
        assert forall|j: int| 0 <= j < delim_index(b) implies b[j] != FRAME_DELIMITER by {
            if j > 0 {
                assert(b[j] == b.drop_first()[j - 1]);
            }
        }
    }
}

/// The first delimiter is where no earlier byte is one.
pub proof fn lemma_delim_at(b: Seq<u8>, i: int)
    requires
        0 <= i <= b.len(),
        i < b.len() ==> b[i] == FRAME_DELIMITER,
        forall|j: int| 0 <= j < i ==> b[j] != FRAME_DELIMITER,
    ensures
        delim_index(b) == i,
    decreases b.len(),
{
    if b.len() > 0 && i > 0 {
        assert forall|j: int| 0 <= j < i - 1 implies b.drop_first()[j] != FRAME_DELIMITER by {
            assert(b.drop_first()[j] == b[j + 1]);
        }
        lemma_delim_at(b.drop_first(), i - 1);
    }
}

/// Delivering `a` and then `c` yields the frames of `a`, then those of what
/// `a` left over followed by `c`: the same frames as delivering both at once.
pub proof fn lemma_chunking(a: Seq<u8>, c: Seq<u8>)
    ensures
        frames_of(a + c) == frames_of(a) + frames_of(leftover(a) + c),
        leftover(a + c) == leftover(leftover(a) + c),
    decreases a.len(),
{
    lemma_delim_index(a);
    let d = delim_index(a);
    if d < a.len() {
        assert forall|j: int| 0 <= j < d implies (a + c)[j] != FRAME_DELIMITER by {
            assert((a + c)[j] == a[j]);
        }
        assert((a + c)[d as int] == a[d as int]);
        lemma_delim_at(a + c, d as int);
        assert((a + c).take((d + 1) as int) =~= a.take((d + 1) as int));
        assert((a + c).skip((d + 1) as int) =~= a.skip((d + 1) as int) + c);
        lemma_chunking(a.skip((d + 1) as int), c);
        assert(frames_of(a + c) =~= frames_of(a) + frames_of(leftover(a) + c));
    } else {
        assert(frames_of(a) =~= Seq::<Seq<u8>>::empty());
        assert(frames_of(a) + frames_of(leftover(a) + c) =~= frames_of(a + c));
    }
}

/// A frame cut at any point and delivered in two parts gives nothing before
/// the second part arrives, and then exactly that frame.
pub proof fn lemma_split_delivery(f: Seq<u8>, k: int)
    requires
        f.len() >= 1,
        f.last() == FRAME_DELIMITER,
        forall|j: int| 0 <= j < f.len() - 1 ==> f[j] != FRAME_DELIMITER,
        0 <= k <= f.len(),
    ensures
        k < f.len() ==> frames_of(f.take(k)) == Seq::<Seq<u8>>::empty() && leftover(f.take(k))
            == f.take(k),
        frames_of(f.take(k)) + frames_of(leftover(f.take(k)) + f.skip(k)) == seq![f],
{
    lemma_chunking(f.take(k), f.skip(k));
    assert(f.take(k) + f.skip(k) =~= f);
    lemma_delim_at(f, f.len() - 1);
    assert(f.take(f.len() as int) =~= f);
    assert(f.skip(f.len() as int) =~= Seq::<u8>::empty());
    assert(frames_of(Seq::<u8>::empty()) =~= Seq::<Seq<u8>>::empty());
    assert(frames_of(f) =~= seq![f]);
    if k < f.len() {
        let a = f.take(k);
        assert forall|j: int| 0 <= j < a.len() implies a[j] != FRAME_DELIMITER by {
            assert(a[j] == f[j]);
        }
        lemma_delim_at(a, a.len() as int);
    }
}

/// A single frame: one delimiter, at its end.
pub open spec fn is_one_frame(f: Seq<u8>) -> bool {
    &&& f.len() >= 1
    &&& f.last() == FRAME_DELIMITER
    &&& forall|i: int| 0 <= i < f.len() - 1 ==> f[i] != FRAME_DELIMITER
}

pub proof fn lemma_one_frame(f: Seq<u8>)
    requires
        is_one_frame(f),
    ensures
        frames_of(f) == seq![f],
        leftover(f) == Seq::<u8>::empty(),
{
    lemma_delim_at(f, f.len() - 1);
    assert(f.take(f.len() as int) =~= f);
    assert(f.skip(f.len() as int) =~= Seq::<u8>::empty());
    lemma_delim_at(Seq::<u8>::empty(), 0);
    assert(frames_of(Seq::<u8>::empty()) =~= Seq::<Seq<u8>>::empty());
    assert(frames_of(f) =~= seq![f]);
    assert(leftover(Seq::<u8>::empty()) =~= Seq::<u8>::empty());
}

/// Two frames and a partial third that arrive together come out in order,
/// and the partial one stays buffered.
pub proof fn lemma_two_frames(f1: Seq<u8>, f2: Seq<u8>, tail: Seq<u8>)
    requires
        is_one_frame(f1),
        is_one_frame(f2),
        forall|i: int| 0 <= i < tail.len() ==> tail[i] != FRAME_DELIMITER,
    ensures
        frames_of(f1 + f2 + tail) == seq![f1, f2],
        leftover(f1 + f2 + tail) == tail,
{
    lemma_one_frame(f1);
    lemma_one_frame(f2);
    lemma_chunking(f1, f2 + tail);
    lemma_chunking(f2, tail);
    assert(f1 + f2 + tail =~= f1 + (f2 + tail));
    assert(Seq::<u8>::empty() + (f2 + tail) =~= f2 + tail);
    assert(Seq::<u8>::empty() + tail =~= tail);
    lemma_delim_at(tail, tail.len() as int);
    assert(frames_of(tail) =~= Seq::<Seq<u8>>::empty());
    assert(frames_of(f1 + f2 + tail) =~= seq![f1, f2]);
}

/// The chunks of `cs`, joined.
pub open spec fn concat_all(cs: Seq<Seq<u8>>) -> Seq<u8>
    decreases cs.len(),
{
    if cs.len() == 0 {
        Seq::empty()
    } else {
        cs[0] + concat_all(cs.drop_first())
    }
}

/// The frames that come out when the chunks `cs` are delivered one by one
/// to a buffer holding `buf`, the complete frames drained after each chunk.
pub open spec fn delivered(buf: Seq<u8>, cs: Seq<Seq<u8>>) -> Seq<Seq<u8>>
    decreases cs.len(),
{
    if cs.len() == 0 {
        frames_of(buf)
    } else {
        frames_of(buf + cs[0]) + delivered(leftover(buf + cs[0]), cs.drop_first())
    }
}

/// What the buffer holds after the chunks `cs` are delivered and drained.
pub open spec fn left_after(buf: Seq<u8>, cs: Seq<Seq<u8>>) -> Seq<u8>
    decreases cs.len(),
{
    if cs.len() == 0 {
        leftover(buf)
    } else {
        left_after(leftover(buf + cs[0]), cs.drop_first())
    }
}

/// However the bytes are cut into chunks, delivering them one by one gives
/// the same frames, and leaves the same bytes, as delivering them at once.
pub proof fn lemma_any_chunking(buf: Seq<u8>, cs: Seq<Seq<u8>>)
    ensures
        delivered(buf, cs) == frames_of(buf + concat_all(cs)),
        left_after(buf, cs) == leftover(buf + concat_all(cs)),
    decreases cs.len(),
{
    if cs.len() == 0 {
        assert(buf + concat_all(cs) =~= buf);
    } else {
        let a = buf + cs[0];
        let rest = concat_all(cs.drop_first());
        lemma_any_chunking(leftover(a), cs.drop_first());
        lemma_chunking(a, rest);
        assert(buf + concat_all(cs) =~= a + rest);
    }
}

/// The frame that carries `x`, delivered in any chunks to an empty buffer,
/// comes out as exactly one frame, nothing is left over, and reading it
/// gives back `x`.
pub proof fn lemma_delivered_message<T: Wire>(
    x: T,
    f: Seq<u8>,
    cs: Seq<Seq<u8>>,
    res: Result<T, FpError>,
)
    requires
        is_one_frame(f),
        frame_payload(f) == Some(x.wire()),
        concat_all(cs) == f,
        message_from_frame(f, res),
    ensures
        delivered(Seq::empty(), cs) == seq![f],
        left_after(Seq::empty(), cs) == Seq::<u8>::empty(),
        res matches Ok(m) && m.wire() == x.wire() && x.same(&m),
{
    lemma_any_chunking(Seq::empty(), cs);
    assert(Seq::<u8>::empty() + f =~= f);
    lemma_one_frame(f);
    lemma_round_trip(x, Seq::empty());
    assert(x.wire() + Seq::<u8>::empty() =~= x.wire());
}

/// The receive side of a connection: bytes that arrived and are not yet
/// consumed as frames.
pub struct Receiver {
    buf: Vec<u8>,
}

impl Receiver {
    /// The bytes held.
    pub closed spec fn pending(&self) -> Seq<u8> {
        self.buf@
    }

    pub fn new() -> (r: Receiver)
        ensures
            r.pending() == Seq::<u8>::empty(),
    {
        Receiver { buf: Vec::new() }
    }

    /// Appends a chunk that the transport delivered.
    pub fn push(&mut self, chunk: &[u8])
        ensures
            final(self).pending() == old(self).pending() + chunk@,
    {
        let ghost start = self.buf@;
        let mut i: usize = 0;
        while i < chunk.len()
            invariant
                i <= chunk@.len(),
                self.buf@ == start + chunk@.subrange(0, i as int),
            decreases chunk@.len() - i,
        {
            self.buf.push(chunk[i]);
            i = i + 1;
            assert(self.buf@ =~= start + chunk@.subrange(0, i as int));
        }
        assert(chunk@.subrange(0, i as int) =~= chunk@);
    }

    /// Removes and returns the first complete frame, delimiter included.
    pub fn next_frame(&mut self) -> (r: Option<Vec<u8>>)
        ensures
            match r {
                Some(f) => {
                    &&& frames_of(old(self).pending()).len() > 0
                    &&& f@ == frames_of(old(self).pending())[0]
                    &&& old(self).pending() == f@ + final(self).pending()
                    &&& frames_of(old(self).pending()) == seq![f@] + frames_of(final(self).pending())
                    &&& leftover(old(self).pending()) == leftover(final(self).pending())
                },
                None => {
                    &&& frames_of(old(self).pending()) == Seq::<Seq<u8>>::empty()
                    &&& leftover(old(self).pending()) == old(self).pending()
                    &&& final(self).pending() == old(self).pending()
                },
            },
    {
        let ghost b = self.buf@;
        proof {
            lemma_delim_index(b);
        }
        let mut i: usize = 0;
        while i < self.buf.len() && self.buf[i] != FRAME_DELIMITER
            invariant
                self.buf@ == b,
                i <= b.len(),
                forall|j: int| 0 <= j < i ==> b[j] != FRAME_DELIMITER,
            decreases b.len() - i,
        {
            i = i + 1;
        }
        proof {
            lemma_delim_at(b, i as int);
        }
        if i == self.buf.len() {
            return None;
        }
        let mut frame: Vec<u8> = Vec::new();
        let mut k: usize = 0;
        while k <= i
            invariant
                self.buf@ == b,
                i < self.buf.len(),
                k <= i + 1,
                frame@ == b.subrange(0, k as int),
            decreases i + 1 - k,
        {
            frame.push(self.buf[k]);
            k = k + 1;
            assert(frame@ =~= b.subrange(0, k as int));
        }
        let rest = copy_tail(self.buf.as_slice(), i + 1);
        self.buf = rest;
        proof {
            assert(frame@ =~= b.take(i + 1));
            assert(b =~= frame@ + self.buf@);
        }
        Some(frame)
    }

    /// Consumes the first complete frame and reads the message it carries;
    /// `None` until a complete frame has arrived.
    pub fn next_message(&mut self) -> (r: Option<Result<ConfigMsgOut, FpError>>)
        ensures
            ({
                let b = old(self).pending();
                match r {
                    None => frames_of(b) == Seq::<Seq<u8>>::empty() && final(self).pending() == b,
                    Some(res) => {
                        &&& frames_of(b).len() > 0
                        &&& b == frames_of(b)[0] + final(self).pending()
                        &&& frames_of(b) == seq![frames_of(b)[0]] + frames_of(final(self).pending())
                        &&& message_from_frame(frames_of(b)[0], res)
                    },
                }
            }),
    {
        match self.next_frame() {
            None => None,
            Some(f) => Some(decode_message_frame(f.as_slice())),
        }
    }
}

} // verus!
