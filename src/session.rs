//! Request/response orchestration. The connection in the application does
//! the transfers; the decisions are here: how a request is cut into USB
//! packets, and what a batched answer must look like.
use vstd::prelude::*;

use crate::codec::FpError;
use crate::frame::{encode_message_frame, frame_of};
use crate::protocol::{ConfigMsgIn, ConfigMsgOut};
use crate::wire::Wire;

verus! {

/// USB vendor id of the device.
pub const FADERPUNK_VID: u16 = 0xf569;

/// USB product id of the device.
pub const FADERPUNK_PID: u16 = 0x0001;

/// Interface class of the configuration interface (vendor specific).
pub const USB_CLASS_VENDOR: u8 = 0xff;

/// Size of each bulk OUT write: the full-speed maximum packet size.
pub const USB_PACKET_SIZE: usize = 64;

/// Size requested by each bulk IN read.
pub const USB_TRANSFER_SIZE: usize = 512;

/// The pieces of `cs`, joined.
pub open spec fn joined(cs: Seq<Vec<u8>>) -> Seq<u8>
    decreases cs.len(),
{
    if cs.len() == 0 {
        Seq::empty()
    } else {
        joined(cs.drop_last()) + cs.last()@
    }
}

/// `cs` cuts `frame` into pieces of `size` bytes, the last one shorter if
/// need be, none empty.
pub open spec fn chunked(cs: Seq<Vec<u8>>, frame: Seq<u8>, size: nat) -> bool {
    &&& joined(cs) == frame
    &&& forall|i: int| 0 <= i < cs.len() ==> 1 <= #[trigger] cs[i]@.len() <= size
    &&& forall|i: int| 0 <= i < cs.len() - 1 ==> #[trigger] cs[i]@.len() == size
}

/// `frame` cut into pieces of `size` bytes.
pub fn split_chunks(frame: &[u8], size: usize) -> (r: Vec<Vec<u8>>)
    requires
        size > 0,
    ensures
        chunked(r@, frame@, size as nat),
{
    let n = frame.len();
    let mut chunks: Vec<Vec<u8>> = Vec::new();
    let mut start: usize = 0;
    while start < n
        invariant
            n == frame@.len(),
            size > 0,
            start <= n,
            joined(chunks@) == frame@.subrange(0, start as int),
            forall|i: int| 0 <= i < chunks@.len() ==> #[trigger] chunks@[i]@.len() == size,
            chunks@.len() == 0 || start < n,
        decreases n - start,
    {
        let end = if n - start >= size {
            start + size
        } else {
            n
        };
        let mut chunk: Vec<u8> = Vec::new();
        let mut k = start;
        while k < end
            invariant
                start <= k <= end,
                end <= frame@.len(),
                chunk@ == frame@.subrange(start as int, k as int),
            decreases end - k,
        {
            chunk.push(frame[k]);
            k = k + 1;
            assert(chunk@ =~= frame@.subrange(start as int, k as int));
        }
        let ghost before = chunks@;
        chunks.push(chunk);
        proof {
            assert(chunks@.drop_last() =~= before);
            assert(joined(chunks@) =~= frame@.subrange(0, end as int));
        }
        if end < n {
            start = end;
        } else {
            assert(frame@.subrange(0, end as int) =~= frame@);
            return chunks;
        }
    }
    assert(frame@.subrange(0, start as int) =~= frame@);
    assert(chunks@.len() == 0);
    chunks
}

/// The USB packets that carry `msg`, in the order they are written.
pub fn request_packets(msg: &ConfigMsgIn) -> (r: Vec<Vec<u8>>)
    ensures
        chunked(r@, frame_of(msg.wire()), USB_PACKET_SIZE as nat),
{
    let frame = encode_message_frame(msg);
    split_chunks(frame.as_slice(), USB_PACKET_SIZE)
}

// ---------------------------------------------------------------- batches

/// Where a batched answer stands.
#[derive(Clone, Copy, Debug, PartialEq, Eq)]
pub enum BatchPhase {
    /// Nothing received yet; a start marker must come first.
    AwaitingStart,
    /// This many items are still to come.
    AwaitingItems(usize),
    /// All items arrived; the end marker must come next.
    AwaitingEnd,
    /// The end marker arrived.
    Complete,
    /// A message arrived that the protocol does not allow there.
    Violated,
}

/// The phase after `msg` arrives in phase `p`.
pub open spec fn next_phase(p: BatchPhase, msg: ConfigMsgOut) -> BatchPhase {
    match p {
        BatchPhase::AwaitingStart => match msg {
            ConfigMsgOut::BatchMsgStart(n) => if n == 0 {
                BatchPhase::AwaitingEnd
            } else {
                BatchPhase::AwaitingItems(n)
            },
            _ => BatchPhase::Violated,
        },
        BatchPhase::AwaitingItems(k) => if k <= 1 {
            BatchPhase::AwaitingEnd
        } else {
            BatchPhase::AwaitingItems((k - 1) as usize)
        },
        BatchPhase::AwaitingEnd => match msg {
            ConfigMsgOut::BatchMsgEnd => BatchPhase::Complete,
            _ => BatchPhase::Violated,
        },
        _ => BatchPhase::Violated,
    }
}

/// The items collected after `msg` arrives in phase `p`.
pub open spec fn next_items(p: BatchPhase, items: Seq<ConfigMsgOut>, msg: ConfigMsgOut) -> Seq<
    ConfigMsgOut,
> {
    match p {
        BatchPhase::AwaitingItems(_) => items.push(msg),
        _ => items,
    }
}

/// Phase and items after the messages `msgs` arrive, one by one.
pub open spec fn run_batch(p: BatchPhase, items: Seq<ConfigMsgOut>, msgs: Seq<ConfigMsgOut>) -> (
    BatchPhase,
    Seq<ConfigMsgOut>,
)
    decreases msgs.len(),
{
    if msgs.len() == 0 {
        (p, items)
    } else {
        run_batch(next_phase(p, msgs[0]), next_items(p, items, msgs[0]), msgs.drop_first())
    }
}

/// Collects the items of a batched answer.
pub struct BatchCollector {
    phase: BatchPhase,
    items: Vec<ConfigMsgOut>,
}

/// What one message did to a batch.
pub enum BatchStep {
    /// More messages are needed.
    More(BatchCollector),
    /// The batch is complete: its items, in arrival order.
    Done(Vec<ConfigMsgOut>),
}

impl BatchCollector {
    pub closed spec fn phase(&self) -> BatchPhase {
        self.phase
    }

    pub closed spec fn items(&self) -> Seq<ConfigMsgOut> {
        self.items@
    }

    /// The state before any answer arrived.
    pub fn new() -> (r: BatchCollector)
        ensures
            r.phase() == BatchPhase::AwaitingStart,
            r.items() == Seq::<ConfigMsgOut>::empty(),
    {
        BatchCollector { phase: BatchPhase::AwaitingStart, items: Vec::new() }
    }

    /// Takes the next message of the answer.
    pub fn accept(self, msg: ConfigMsgOut) -> (r: Result<BatchStep, FpError>)
        requires
            self.phase() != BatchPhase::Complete,
            self.phase() != BatchPhase::Violated,
        ensures
            ({
                let p = next_phase(self.phase(), msg);
                let items = next_items(self.phase(), self.items(), msg);
                match r {
                    Err(e) => e == FpError::ProtocolViolation && p == BatchPhase::Violated,
                    Ok(BatchStep::Done(v)) => p == BatchPhase::Complete && v@ == items,
                    Ok(BatchStep::More(c)) => {
                        &&& p != BatchPhase::Complete
                        &&& p != BatchPhase::Violated
                        &&& c.phase() == p
                        &&& c.items() == items
                    },
                }
            }),
    {
        let BatchCollector { phase, mut items } = self;
        match phase {
            BatchPhase::AwaitingStart => match msg {
                ConfigMsgOut::BatchMsgStart(n) => {
                    let next = if n == 0 {
                        BatchPhase::AwaitingEnd
                    } else {
                        BatchPhase::AwaitingItems(n)
                    };
                    Ok(BatchStep::More(BatchCollector { phase: next, items }))
                },
                _ => Err(FpError::ProtocolViolation),
            },
            BatchPhase::AwaitingItems(k) => {
                items.push(msg);
                let next = if k <= 1 {
                    BatchPhase::AwaitingEnd
                } else {
                    BatchPhase::AwaitingItems(k - 1)
                };
                Ok(BatchStep::More(BatchCollector { phase: next, items }))
            },
            BatchPhase::AwaitingEnd => match msg {
                ConfigMsgOut::BatchMsgEnd => Ok(BatchStep::Done(items)),
                _ => Err(FpError::ProtocolViolation),
            },
            _ => Err(FpError::ProtocolViolation),
        }
    }
}

proof fn lemma_run_items(k: usize, items: Seq<ConfigMsgOut>, xs: Seq<ConfigMsgOut>)
    requires
        xs.len() == k,
        k >= 1,
    ensures
        run_batch(BatchPhase::AwaitingItems(k), items, xs) == (BatchPhase::AwaitingEnd, items + xs),
    decreases k,
{
    reveal_with_fuel(run_batch, 2);
    if k == 1 {
        assert(xs.drop_first() =~= Seq::<ConfigMsgOut>::empty());
        assert(items.push(xs[0]) =~= items + xs);
    } else {
        lemma_run_items((k - 1) as usize, items.push(xs[0]), xs.drop_first());
        assert(items.push(xs[0]) + xs.drop_first() =~= items + xs);
    }
}

/// A start marker for `n` items, `n` items, and the end marker complete a
/// batch whose items are exactly those, in arrival order.
pub proof fn lemma_batch_complete(n: usize, xs: Seq<ConfigMsgOut>)
    requires
        xs.len() == n,
    ensures
        run_batch(
            BatchPhase::AwaitingStart,
            Seq::empty(),
            seq![ConfigMsgOut::BatchMsgStart(n)] + xs + seq![ConfigMsgOut::BatchMsgEnd],
        ) == (BatchPhase::Complete, xs),
{
    reveal_with_fuel(run_batch, 4);
    let msgs = seq![ConfigMsgOut::BatchMsgStart(n)] + xs + seq![ConfigMsgOut::BatchMsgEnd];
    let tail = msgs.drop_first();
    assert(tail =~= xs + seq![ConfigMsgOut::BatchMsgEnd]);
    let end = seq![ConfigMsgOut::BatchMsgEnd];
    assert(end.drop_first() =~= Seq::<ConfigMsgOut>::empty());
    if n == 0 {
        assert(tail =~= end);
        assert(Seq::<ConfigMsgOut>::empty() =~= xs);
    } else {
        lemma_run_items_then(n, Seq::empty(), xs, end);
        assert(Seq::<ConfigMsgOut>::empty() + xs =~= xs);
    }
}

proof fn lemma_run_items_then(
    k: usize,
    items: Seq<ConfigMsgOut>,
    xs: Seq<ConfigMsgOut>,
    rest: Seq<ConfigMsgOut>,
)
    requires
        xs.len() == k,
        k >= 1,
    ensures
        run_batch(BatchPhase::AwaitingItems(k), items, xs + rest) == run_batch(
            BatchPhase::AwaitingEnd,
            items + xs,
            rest,
        ),
    decreases k,
{
    reveal_with_fuel(run_batch, 2);
    let all = xs + rest;
    if k == 1 {
        assert(all.drop_first() =~= rest);
        assert(items.push(xs[0]) =~= items + xs);
    } else {
        assert(all.drop_first() =~= xs.drop_first() + rest);
        lemma_run_items_then((k - 1) as usize, items.push(all[0]), xs.drop_first(), rest);
        assert(items.push(xs[0]) + xs.drop_first() =~= items + xs);
    }
}

/// After a start marker for `n` items, `n + 1` messages of which the last is
/// not the end marker make the batch fail, and no item list comes out.
pub proof fn lemma_batch_overrun(n: usize, xs: Seq<ConfigMsgOut>)
    requires
        xs.len() == n + 1,
        !(xs[n as int] is BatchMsgEnd),
    ensures
        run_batch(
            BatchPhase::AwaitingStart,
            Seq::empty(),
            seq![ConfigMsgOut::BatchMsgStart(n)] + xs,
        ).0 == BatchPhase::Violated,
{
    reveal_with_fuel(run_batch, 4);
    let msgs = seq![ConfigMsgOut::BatchMsgStart(n)] + xs;
    let last = seq![xs[n as int]];
    let front = xs.take(n as int);
    assert(xs =~= front + last);
    assert(msgs.drop_first() =~= front + last);
    assert(last.drop_first() =~= Seq::<ConfigMsgOut>::empty());
    if n == 0 {
        assert(front + last =~= last);
    } else {
        lemma_run_items_then(n, Seq::empty(), front, last);
    }
}

} // verus!
