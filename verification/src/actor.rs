//! The transport actor model: the bounded FIFO request queue that all
//! cloned handles share, and the effect of each request on the owned
//! connection.
//!
//! The actor is the sole owner of one connection. It takes one operation
//! at a time from the front of the queue and drives it to completion
//! before looking at the next one, so no two byte-level operations ever
//! overlap on the connection. The queue model here carries that
//! serialization argument; the surrounding task loop only performs the
//! transport calls this module prescribes.
use vstd::prelude::*;

use crate::errors::ViceError;

verus! {

/// One request sent from a handle to its actor.
///
/// Buffers move into the operation and move back out with the result;
/// the actor never copies or retains them.
pub enum Operation {
    /// perform one read, appending whatever arrives to `buffer`
    ReadSome { buffer: Vec<u8> },
    /// read until exactly `len` bytes have been collected
    ReadExact { len: usize, buffer: Vec<u8> },
    /// write `header` immediately followed by `body`
    WriteAll { header: Vec<u8>, body: Vec<u8> },
}

/// The bounded FIFO queue behind a handle and its clones.
///
/// All clones of a handle share one queue, so enqueue order is the global
/// arrival order. Enqueuing is fail-fast: a full or closed queue rejects
/// the operation instead of blocking or growing without bound.
pub struct OpQueue {
    items: Vec<Operation>,
    capacity: usize,
    closed: bool,
}

impl OpQueue {
    /// The pending operations, front (next to be served) first.
    pub closed spec fn pending(&self) -> Seq<Operation> {
        self.items@
    }

    /// The fixed capacity the queue was created with.
    pub closed spec fn cap(&self) -> nat {
        self.capacity as nat
    }

    /// Whether the actor has terminated and closed the queue.
    pub closed spec fn is_closed(&self) -> bool {
        self.closed
    }

    /// A queue never holds more than its capacity.
    pub open spec fn wf(&self) -> bool {
        self.pending().len() <= self.cap()
    }

    /// Create an empty, open queue of the given capacity.
    pub fn new(capacity: usize) -> (r: OpQueue)
        ensures
            r.pending() == Seq::<Operation>::empty(),
            r.cap() == capacity as nat,
            !r.is_closed(),
            r.wf(),
    {
        OpQueue { items: Vec::new(), capacity, closed: false }
    }

    /// Fail-fast enqueue: the operation joins the back of the queue, or is
    /// handed back unchanged when the queue is full or the actor is gone.
    ///
    /// A rejected operation is returned rather than dropped, so the caller
    /// keeps the buffer it supplied.
    pub fn try_enqueue(&mut self, op: Operation) -> (r: Result<(), Operation>)
        requires
            old(self).wf(),
        ensures
            final(self).wf(),
            final(self).cap() == old(self).cap(),
            final(self).is_closed() == old(self).is_closed(),
            r is Ok <==> (!old(self).is_closed() && old(self).pending().len() < old(self).cap()),
            r is Ok ==> final(self).pending() == old(self).pending().push(op),
            r matches Err(back) ==> back == op && final(self).pending() == old(self).pending(),
    {
        if self.closed || self.items.len() >= self.capacity {
            Err(op)
        } else {
            self.items.push(op);
            Ok(())
        }
    }

    /// The actor takes the operation that arrived first; the rest keep
    /// their order.
    pub fn dequeue(&mut self) -> (r: Option<Operation>)
        requires
            old(self).wf(),
        ensures
            final(self).wf(),
            final(self).cap() == old(self).cap(),
            final(self).is_closed() == old(self).is_closed(),
            r is Some <==> old(self).pending().len() > 0,
            r matches Some(op) ==> op == old(self).pending()[0]
                && final(self).pending() == old(self).pending().drop_first(),
            r is None ==> final(self).pending() == old(self).pending(),
    {
        if self.items.len() == 0 {
            None
        } else {
            let op = self.items.remove(0);
            assert(self.items@ =~= old(self).items@.drop_first());
            Some(op)
        }
    }

    /// All handles are gone, or the actor stopped: no further operation is
    /// accepted.
    pub fn close(&mut self)
        requires
            old(self).wf(),
        ensures
            final(self).wf(),
            final(self).cap() == old(self).cap(),
            final(self).is_closed(),
            final(self).pending() == old(self).pending(),
    {
        self.closed = true;
    }

    /// How many operations are waiting.
    pub fn len(&self) -> (r: usize)
        ensures
            r as nat == self.pending().len(),
    {
        self.items.len()
    }
}

/// The queue contents after enqueuing `ops` one by one, in order.
pub open spec fn after_enqueues(q: Seq<Operation>, ops: Seq<Operation>) -> Seq<Operation>
    decreases ops.len(),
{
    if ops.len() == 0 {
        q
    } else {
        after_enqueues(q.push(ops[0]), ops.drop_first())
    }
}

/// Operations are served in exact arrival order. However many handles
/// share the queue, their enqueues arrive as one interleaved sequence
/// `ops`; this law says the queue then holds the earlier operations
/// followed by `ops` in arrival order, and since the actor always takes
/// the front (`dequeue`) and finishes one operation before taking the
/// next, the k-th arrival is the k-th operation executed, and no two
/// transport calls overlap.
pub proof fn lemma_fifo_arrival_order(q: Seq<Operation>, ops: Seq<Operation>)
    ensures
        after_enqueues(q, ops) == q + ops,
        forall|k: int| 0 <= k < ops.len() ==> after_enqueues(q, ops)[q.len() + k] == ops[k],
    decreases ops.len(),
{
    if ops.len() == 0 {
        assert(after_enqueues(q, ops) =~= q + ops);
    } else {
        lemma_fifo_arrival_order(q.push(ops[0]), ops.drop_first());
        assert(q.push(ops[0]) + ops.drop_first() =~= q + ops);
    }
}

/// Append `src` to `dst`, byte for byte.
fn append_bytes(dst: Vec<u8>, src: &Vec<u8>) -> (r: Vec<u8>)
    requires
        dst@.len() + src@.len() <= usize::MAX,
    ensures
        r@ == dst@ + src@,
    {
        let mut out = dst;
        let ghost orig = out@;
        let mut i: usize = 0;
        while i < src.len()
            invariant
                i <= src@.len(),
                out@ == orig + src@.subrange(0, i as int),
                orig.len() + src@.len() <= usize::MAX,
            decreases src@.len() - i,
        {
            out.push(src[i]);
            assert(out@ =~= orig + src@.subrange(0, i as int + 1));
            i = i + 1;
        }
        assert(src@.subrange(0, src@.len() as int) =~= src@);
        out
    }

/// One `ReadSome` operation: the transport delivered `chunk`; it is
/// appended to the caller's buffer, and the count of newly read bytes is
/// reported beside the buffer, exactly as the actor completes the request.
///
/// The caller's previous contents are preserved as an exact prefix; only
/// the newly received bytes follow them.
pub fn apply_read_some(buffer: Vec<u8>, chunk: &Vec<u8>) -> (r: (usize, Vec<u8>))
    requires
        buffer@.len() + chunk@.len() <= usize::MAX,
    ensures
        r.0 == chunk@.len(),
        r.1@ == buffer@ + chunk@,
        r.1@.subrange(0, buffer@.len() as int) == buffer@,
    {
        let ghost orig = buffer@;
        let out = append_bytes(buffer, chunk);
        assert((orig + chunk@).subrange(0, orig.len() as int) =~= orig);
        (chunk.len(), out)
    }

/// The actor's progress on one `ReadExact` operation: it keeps issuing
/// reads until exactly `target` bytes have been collected.
pub struct ReadExactState {
    target: usize,
    collected: Vec<u8>,
}

/// What one more transport read did to a `ReadExact` operation.
pub enum ReadExactOutcome {
    /// fewer than `target` bytes so far: issue another read
    More(ReadExactState),
    /// exactly `target` bytes collected; the buffer goes back to the caller
    Done(Vec<u8>),
    /// the transport closed before `target` bytes arrived
    Failed(ViceError),
}

impl ReadExactState {
    /// How many bytes the operation must collect in all.
    pub closed spec fn spec_target(&self) -> nat {
        self.target as nat
    }

    /// The bytes collected so far, in arrival order.
    pub closed spec fn spec_collected(&self) -> Seq<u8> {
        self.collected@
    }

    /// Progress never passes the target.
    pub open spec fn wf(&self) -> bool {
        self.spec_collected().len() < self.spec_target()
    }

    /// Begin a `ReadExact { len, .. }` operation.
    pub fn new(len: usize) -> (r: ReadExactState)
        requires
            len > 0,
        ensures
            r.spec_target() == len as nat,
            r.spec_collected() == Seq::<u8>::empty(),
            r.wf(),
    {
        ReadExactState { target: len, collected: Vec::new() }
    }

    /// One transport read delivered `chunk` (empty means the transport
    /// closed). A read never asks for more than the bytes still missing,
    /// so the chunk cannot overshoot the target.
    ///
    /// Success is reported exactly when the target is reached, and the
    /// returned buffer then holds every received byte in arrival order —
    /// a transport that closes early always produces a failure, never a
    /// short buffer.
    pub fn feed(self, chunk: &Vec<u8>) -> (r: ReadExactOutcome)
        requires
            self.wf(),
            self.spec_collected().len() + chunk@.len() <= self.spec_target(),
        ensures
            chunk@.len() == 0 <==> (r matches ReadExactOutcome::Failed(e) && e == ViceError::TransportIo),
            r matches ReadExactOutcome::Done(buf) ==> buf@ == self.spec_collected() + chunk@
                && buf@.len() == self.spec_target(),
            r matches ReadExactOutcome::More(st) ==> st.wf()
                && st.spec_target() == self.spec_target()
                && st.spec_collected() == self.spec_collected() + chunk@
                && st.spec_collected().len() < st.spec_target(),
            chunk@.len() > 0 && self.spec_collected().len() + chunk@.len() == self.spec_target()
                ==> r is Done,
            chunk@.len() > 0 && self.spec_collected().len() + chunk@.len() < self.spec_target()
                ==> r is More,
    {
        if chunk.len() == 0 {
            return ReadExactOutcome::Failed(ViceError::TransportIo);
        }
        let target = self.target;
        let grown = append_bytes(self.collected, chunk);
        if grown.len() == target {
            ReadExactOutcome::Done(grown)
        } else {
            ReadExactOutcome::More(ReadExactState { target, collected: grown })
        }
    }

    /// How many bytes are still missing; the next read asks for at most
    /// this many.
    pub fn remaining(&self) -> (r: usize)
        requires
            self.wf(),
        ensures
            r as nat == self.spec_target() - self.spec_collected().len(),
            r > 0,
    {
        self.target - self.collected.len()
    }
}

/// One `WriteAll` operation: the bytes put on the wire are the header
/// immediately followed by the body, with nothing inserted or omitted.
/// The actor performs this as one gathered write; this function states
/// which byte sequence that write must flush.
pub fn write_wire_bytes(header: &Vec<u8>, body: &Vec<u8>) -> (r: Vec<u8>)
    requires
        header@.len() + body@.len() <= usize::MAX,
    ensures
        r@ == header@ + body@,
    {
        let empty: Vec<u8> = Vec::new();
        let joined = append_bytes(empty, header);
        let out = append_bytes(joined, body);
        assert(out@ =~= header@ + body@);
        out
    }

} // verus!
