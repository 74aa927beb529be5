//! The operator pipeline: a batch of packets is pulled from a port,
//! transformed item by item, and handed to a send stage that splits it
//! between the transmit queue and the drop queue.
//!
//! Each packet of a batch carries an outcome: still flowing, already
//! emitted, marked to drop, or aborted by an error.  A send stage consumes
//! every item of a batch exactly once: the buffer goes either to the
//! transmit queue or to the free queue, never to both and never twice.

use vstd::prelude::*;

verus! {

use crate::mbuf::MBuf;
use crate::packet::ParseError;
use crate::scheduler::Executable;

/// How many packets one batch moves at most.
pub const BATCH_SIZE: usize = 32;

/// The state of one packet inside a batch.
pub enum PacketItem {
    /// Still flowing down the pipeline.
    Keep(MBuf),
    /// Processing finished early; emit as is.
    Emit(MBuf),
    /// Marked to be dropped.
    Drop(MBuf),
    /// Aborted by a per-packet error.
    Abort(MBuf, ParseError),
}

/// The buffer an item carries.
pub open spec fn item_mbuf(i: PacketItem) -> MBuf {
    match i {
        PacketItem::Keep(m) => m,
        PacketItem::Emit(m) => m,
        PacketItem::Drop(m) => m,
        PacketItem::Abort(m, _) => m,
    }
}

/// Whether a plain send stage transmits the item (drops stay behind).
pub open spec fn send_transmits(i: PacketItem) -> bool {
    i matches PacketItem::Keep(_) || i matches PacketItem::Emit(_)
}

/// Whether a send-all stage transmits the item (only aborts stay behind).
pub open spec fn sendall_transmits(i: PacketItem) -> bool {
    !(i matches PacketItem::Abort(_, _))
}

/// The buffers a plain send stage transmits, in order.
pub open spec fn send_kept(s: Seq<PacketItem>) -> Seq<MBuf>
    decreases s.len(),
{
    if s.len() == 0 {
        Seq::empty()
    } else if send_transmits(s.last()) {
        send_kept(s.drop_last()).push(item_mbuf(s.last()))
    } else {
        send_kept(s.drop_last())
    }
}

/// The buffers a plain send stage hands to the free queue, in order.
pub open spec fn send_freed(s: Seq<PacketItem>) -> Seq<MBuf>
    decreases s.len(),
{
    if s.len() == 0 {
        Seq::empty()
    } else if send_transmits(s.last()) {
        send_freed(s.drop_last())
    } else {
        send_freed(s.drop_last()).push(item_mbuf(s.last()))
    }
}

/// The buffers a send-all stage transmits, in order.
pub open spec fn sendall_kept(s: Seq<PacketItem>) -> Seq<MBuf>
    decreases s.len(),
{
    if s.len() == 0 {
        Seq::empty()
    } else if sendall_transmits(s.last()) {
        sendall_kept(s.drop_last()).push(item_mbuf(s.last()))
    } else {
        sendall_kept(s.drop_last())
    }
}

/// The buffers a send-all stage hands to the free queue, in order.
pub open spec fn sendall_freed(s: Seq<PacketItem>) -> Seq<MBuf>
    decreases s.len(),
{
    if s.len() == 0 {
        Seq::empty()
    } else if sendall_transmits(s.last()) {
        sendall_freed(s.drop_last())
    } else {
        sendall_freed(s.drop_last()).push(item_mbuf(s.last()))
    }
}

/// At-most-once accounting for the plain send stage: every item of the
/// batch is either transmitted or freed, and nothing else is.
pub proof fn lemma_send_partitions(s: Seq<PacketItem>)
    ensures
        send_kept(s).len() + send_freed(s).len() == s.len(),
    decreases s.len(),
{
    if s.len() > 0 {
        lemma_send_partitions(s.drop_last());
    }
}

/// At-most-once accounting for the send-all stage: every item of the
/// batch is either transmitted or freed, and nothing else is.
pub proof fn lemma_sendall_partitions(s: Seq<PacketItem>)
    ensures
        sendall_kept(s).len() + sendall_freed(s).len() == s.len(),
    decreases s.len(),
{
    if s.len() > 0 {
        lemma_sendall_partitions(s.drop_last());
    }
}

/// An in-memory port: a queue of packets waiting to be received and a
/// record of every packet sent, in order.
pub struct MemQueue {
    pub incoming: Vec<MBuf>,
    pub outgoing: Vec<MBuf>,
}

impl MemQueue {
    /// An empty port.
    pub fn new() -> (r: MemQueue)
        ensures
            r.incoming@.len() == 0,
            r.outgoing@.len() == 0,
    {
        MemQueue { incoming: Vec::new(), outgoing: Vec::new() }
    }

    /// Take up to `max` packets off the incoming queue, in order.
    pub fn recv(&mut self, max: usize) -> (r: Vec<MBuf>)
        ensures
            r@.len() == vstd::math::min(max as int, old(self).incoming@.len() as int),
            r@ == old(self).incoming@.take(r@.len() as int),
            final(self).incoming@ == old(self).incoming@.skip(r@.len() as int),
            final(self).outgoing@ == old(self).outgoing@,
    {
        let n: usize = if max < self.incoming.len() {
            max
        } else {
            self.incoming.len()
        };
        let mut out: Vec<MBuf> = Vec::new();
        let mut i: usize = 0;
        proof {
            assert(out@ =~= old(self).incoming@.take(0));
            assert(self.incoming@ =~= old(self).incoming@.skip(0));
        }
        while i < n
            invariant
                i <= n,
                n <= old(self).incoming@.len(),
                out@.len() == i,
                out@ == old(self).incoming@.take(i as int),
                self.incoming@ == old(self).incoming@.skip(i as int),
                self.outgoing@ == old(self).outgoing@,
            decreases n - i,
        {
            let m = self.incoming.remove(0);
            out.push(m);
            proof {
                assert(out@ =~= old(self).incoming@.take(i + 1));
                assert(self.incoming@ =~= old(self).incoming@.skip(i + 1));
            }
            i = i + 1;
        }
        out
    }

    /// Transmit a batch: every packet is appended to the sent record, in
    /// order.
    pub fn send(&mut self, pkts: Vec<MBuf>) -> (r: usize)
        ensures
            r == pkts@.len(),
            final(self).outgoing@ == old(self).outgoing@ + pkts@,
            final(self).incoming@ == old(self).incoming@,
    {
        let n = pkts.len();
        let mut pkts = pkts;
        let ghost pkts0 = pkts@;
        let mut i: usize = 0;
        proof {
            assert(self.outgoing@ =~= old(self).outgoing@ + pkts0.take(0));
            assert(pkts@ =~= pkts0.skip(0));
        }
        while i < n
            invariant
                i <= n,
                n == pkts0.len(),
                n == pkts@.len() + i,
                self.outgoing@ == old(self).outgoing@ + pkts0.take(i as int),
                pkts@ == pkts0.skip(i as int),
                self.incoming@ == old(self).incoming@,
            decreases n - i,
        {
            let m = pkts.remove(0);
            self.outgoing.push(m);
            proof {
                assert(m == pkts0.skip(i as int)[0]);
                assert(pkts0.take(i + 1) =~= pkts0.take(i as int).push(pkts0[i as int]));
                assert(self.outgoing@ =~= old(self).outgoing@ + pkts0.take(i + 1));
                assert(pkts0.skip(i as int).skip(1) =~= pkts0.skip(i + 1));
            }
            i = i + 1;
        }
        n
    }
}

/// A source of batches: `receive` pulls a fresh batch from the head of the
/// chain, and `next` hands out its items one by one.
pub trait Batch {
    /// Pull a fresh batch from the source of the chain.
    fn receive(&mut self);

    /// The next item of the current batch, or nothing when it is drained.
    fn next(&mut self) -> Option<PacketItem>;
}

/// The head of a pipeline: fills its batch from a port.
pub struct ReceiveBatch {
    pub port: MemQueue,
    pub batch: Vec<MBuf>,
}

impl ReceiveBatch {
    /// A receive operator reading from `port`.
    pub fn new(port: MemQueue) -> (r: ReceiveBatch)
        ensures
            r.port == port,
            r.batch@.len() == 0,
    {
        ReceiveBatch { port, batch: Vec::new() }
    }
}

impl Batch for ReceiveBatch {
    /// Replace the current batch with up to one batch's worth of packets
    /// from the port, in arrival order.
    fn receive(&mut self)
        ensures
            final(self).batch@ == old(self).port.incoming@.take(
                vstd::math::min(BATCH_SIZE as int, old(self).port.incoming@.len() as int),
            ),
            final(self).port.incoming@ == old(self).port.incoming@.skip(
                vstd::math::min(BATCH_SIZE as int, old(self).port.incoming@.len() as int),
            ),
            final(self).port.outgoing@ == old(self).port.outgoing@,
    {
        let fresh = self.port.recv(BATCH_SIZE);
        self.batch = fresh;
    }

    /// Hand out the front of the current batch as a still-flowing packet,
    /// or nothing once the batch is drained.
    fn next(&mut self) -> (r: Option<PacketItem>)
        ensures
            match r {
                Option::None => old(self).batch@.len() == 0 && *final(self) == *old(self),
                Option::Some(item) => {
                    &&& old(self).batch@.len() > 0
                    &&& item == PacketItem::Keep(old(self).batch@[0])
                    &&& final(self).batch@ == old(self).batch@.skip(1)
                    &&& final(self).port == old(self).port
                },
            },
    {
        if self.batch.len() == 0 {
            None
        } else {
            let m = self.batch.remove(0);
            proof {
                assert(self.batch@ =~= old(self).batch@.skip(1));
            }
            Some(PacketItem::Keep(m))
        }
    }
}

/// The plain send stage: transmit the still-flowing and emitted packets in
/// their batch order; hand dropped and aborted packets to the free queue.
/// Every buffer of the batch leaves exactly once.
pub fn send_stage(port: &mut MemQueue, batch: Vec<PacketItem>, free_q: &mut Vec<MBuf>) -> (sent:
    usize)
    ensures
        final(port).outgoing@ == old(port).outgoing@ + send_kept(batch@),
        final(free_q)@ == old(free_q)@ + send_freed(batch@),
        final(port).incoming@ == old(port).incoming@,
        sent == send_kept(batch@).len(),
        sent + send_freed(batch@).len() == batch@.len(),
{
    proof {
        lemma_send_partitions(batch@);
    }
    let mut transmit_q: Vec<MBuf> = Vec::new();
    let ghost all = batch@;
    let mut batch = batch;
    let n = batch.len();
    let mut k: usize = 0;
    proof {
        assert(all.take(0) =~= Seq::<PacketItem>::empty());
        assert(batch@ =~= all.skip(0));
        assert(free_q@ =~= old(free_q)@ + Seq::<MBuf>::empty());
    }
    while k < n
        invariant
            k <= n,
            n == all.len(),
            batch@ == all.skip(k as int),
            transmit_q@ == send_kept(all.take(k as int)),
            free_q@ == old(free_q)@ + send_freed(all.take(k as int)),
        decreases n - k,
    {
        let item = batch.remove(0);
        proof {
            assert(all.skip(k as int)[0] == all[k as int]);
            assert(batch@ =~= all.skip(k + 1));
            assert(all.take(k + 1).drop_last() =~= all.take(k as int));
            assert(all.take(k + 1).last() == all[k as int]);
        }
        match item {
            PacketItem::Keep(m) => {
                transmit_q.push(m);
            }
            PacketItem::Emit(m) => {
                transmit_q.push(m);
            }
            PacketItem::Drop(m) => {
                free_q.push(m);
            }
            PacketItem::Abort(m, _) => {
                free_q.push(m);
            }
        }
        k = k + 1;
    }
    proof {
        assert(all.take(n as int) =~= all);
    }
    port.send(transmit_q)
}

/// The send-all stage: transmit everything but aborted packets, in batch
/// order; hand aborted packets to the free queue.  Every buffer of the
/// batch leaves exactly once.
pub fn sendall_stage(port: &mut MemQueue, batch: Vec<PacketItem>, free_q: &mut Vec<MBuf>) -> (sent:
    usize)
    ensures
        final(port).outgoing@ == old(port).outgoing@ + sendall_kept(batch@),
        final(free_q)@ == old(free_q)@ + sendall_freed(batch@),
        final(port).incoming@ == old(port).incoming@,
        sent == sendall_kept(batch@).len(),
        sent + sendall_freed(batch@).len() == batch@.len(),
{
    proof {
        lemma_sendall_partitions(batch@);
    }
    let mut transmit_q: Vec<MBuf> = Vec::new();
    let ghost all = batch@;
    let mut batch = batch;
    let n = batch.len();
    let mut k: usize = 0;
    proof {
        assert(all.take(0) =~= Seq::<PacketItem>::empty());
        assert(batch@ =~= all.skip(0));
        assert(free_q@ =~= old(free_q)@ + Seq::<MBuf>::empty());
    }
    while k < n
        invariant
            k <= n,
            n == all.len(),
            batch@ == all.skip(k as int),
            transmit_q@ == sendall_kept(all.take(k as int)),
            free_q@ == old(free_q)@ + sendall_freed(all.take(k as int)),
        decreases n - k,
    {
        let item = batch.remove(0);
        proof {
            assert(all.skip(k as int)[0] == all[k as int]);
            assert(batch@ =~= all.skip(k + 1));
            assert(all.take(k + 1).drop_last() =~= all.take(k as int));
            assert(all.take(k + 1).last() == all[k as int]);
        }
        match item {
            PacketItem::Abort(m, _) => {
                free_q.push(m);
            }
            PacketItem::Keep(m) => {
                transmit_q.push(m);
            }
            PacketItem::Emit(m) => {
                transmit_q.push(m);
            }
            PacketItem::Drop(m) => {
                transmit_q.push(m);
            }
        }
        k = k + 1;
    }
    proof {
        assert(all.take(n as int) =~= all);
    }
    port.send(transmit_q)
}

/// The enclave-side head of a pipeline: descriptors come off the receive
/// ring one batch at a time and select buffers from the descriptor pool
/// both sides share; the stop sentinel published by the host ends the
/// feed.  The ring's ghost invariant cannot be re-established inside a
/// contract-free trait method, so this operator exposes its two
/// operations directly, with the same shapes as `Batch`.
pub struct RingReceiveBatch {
    pub queue: crate::port::SimulateQueue,
    pub pool: Vec<Option<MBuf>>,
    pub batch: Vec<u64>,
    pub stopped: bool,
}

impl RingReceiveBatch {
    /// Both rings of the queue pair are well-formed.
    pub open spec fn rr_wf(&self) -> bool {
        &&& self.queue.recvq_ring.wf()
        &&& self.queue.sendq_ring.wf()
    }

    /// A ring-backed receive operator over a queue pair and the shared
    /// descriptor pool.
    pub fn new(queue: crate::port::SimulateQueue, pool: Vec<Option<MBuf>>) -> (r:
        RingReceiveBatch)
        requires
            queue.recvq_ring.wf(),
            queue.sendq_ring.wf(),
        ensures
            r.rr_wf(),
            r.queue == queue,
            r.pool == pool,
            r.batch@.len() == 0,
            !r.stopped,
    {
        RingReceiveBatch { queue, pool, batch: Vec::new(), stopped: false }
    }

    /// Pull a fresh batch of descriptors off the receive ring.  When the
    /// host has published the stop sentinel the operator marks itself
    /// stopped and feeds nothing further, as the consumer side of the
    /// stop protocol demands.
    pub fn receive(&mut self)
        requires
            old(self).rr_wf(),
            old(self).queue.stats_rx + BATCH_SIZE <= u64::MAX,
        ensures
            final(self).rr_wf(),
            final(self).pool == old(self).pool,
            final(self).queue.sendq_ring == old(self).queue.sendq_ring,
            final(self).queue.recvq_ring.written() == old(self).queue.recvq_ring.written(),
            if old(self).queue.recvq_ring.stopped() {
                &&& final(self).stopped
                &&& final(self).batch@.len() == 0
                &&& final(self).queue == old(self).queue
            } else {
                &&& final(self).stopped == old(self).stopped
                &&& final(self).batch@ == old(self).queue.recvq_ring.queued().take(
                    vstd::math::min(
                        BATCH_SIZE as int,
                        old(self).queue.recvq_ring.queued().len() as int,
                    ),
                )
                &&& final(self).queue.recvq_ring.taken() == old(self).queue.recvq_ring.taken()
                    + final(self).batch@
            },
    {
        match self.queue.recv() {
            crate::ring::RingPoll::Stopped => {
                self.stopped = true;
                self.batch = Vec::new();
            }
            crate::ring::RingPoll::Received(descs) => {
                self.batch = descs;
            }
        }
    }

    /// Hand out the buffer the front descriptor of the batch names, taking
    /// it out of the pool; a descriptor that names no pooled buffer yields
    /// nothing, as does a drained batch.
    pub fn next_item(&mut self) -> (r: Option<PacketItem>)
        ensures
            final(self).queue == old(self).queue,
            final(self).stopped == old(self).stopped,
            old(self).batch@.len() == 0 ==> r is None && *final(self) == *old(self),
            old(self).batch@.len() > 0 ==> {
                let d = old(self).batch@[0] as int;
                &&& final(self).batch@ == old(self).batch@.skip(1)
                &&& if 0 <= d < old(self).pool@.len() && old(self).pool@[d] is Some {
                    &&& old(self).pool@[d] matches Some(m) && r == Some(PacketItem::Keep(m))
                    &&& final(self).pool@ == old(self).pool@.update(d, Option::None)
                } else {
                    &&& r is None
                    &&& final(self).pool@ == old(self).pool@
                }
            },
    {
        if self.batch.len() == 0 {
            return None;
        }
        let d = self.batch.remove(0);
        proof {
            assert(self.batch@ =~= old(self).batch@.skip(1));
        }
        let idx = d as usize;
        if d < self.pool.len() as u64 {
            let slot = self.pool.remove(idx);
            self.pool.insert(idx, None);
            proof {
                assert(self.pool@ =~= old(self).pool@.update(idx as int, Option::None));
            }
            match slot {
                Some(m) => Some(PacketItem::Keep(m)),
                None => {
                    proof {
                        assert(self.pool@ =~= old(self).pool@);
                    }
                    None
                }
            }
        } else {
            None
        }
    }
}

/// The map stage: apply `f` to every packet still flowing; a packet `f`
/// rejects is aborted with its error.  Emitted and dropped packets pass
/// through untouched.
pub fn map_stage<F: Fn(MBuf) -> Result<MBuf, (MBuf, ParseError)>>(
    batch: Vec<PacketItem>,
    f: &F,
) -> (r: Vec<PacketItem>)
    requires
        forall|m: MBuf| #[trigger] call_requires(*f, (m,)),
    ensures
        r@.len() == batch@.len(),
        forall|i: int|
            0 <= i < batch@.len() ==> match #[trigger] batch@[i] {
                PacketItem::Keep(m) => {
                    ||| (r@[i] matches PacketItem::Keep(m2) && call_ensures(*f, (m,), Ok(m2)))
                    ||| (r@[i] matches PacketItem::Abort(m2, e) && call_ensures(
                        *f,
                        (m,),
                        Err((m2, e)),
                    ))
                },
                _ => r@[i] == batch@[i],
            },
{
    let mut out: Vec<PacketItem> = Vec::new();
    let ghost all = batch@;
    let mut batch = batch;
    let n = batch.len();
    let mut k: usize = 0;
    while k < n
        invariant
            k <= n,
            n == all.len(),
            batch@ == all.skip(k as int),
            out@.len() == k,
            forall|m: MBuf| #[trigger] call_requires(*f, (m,)),
            forall|i: int|
                0 <= i < k ==> match #[trigger] all[i] {
                    PacketItem::Keep(m) => {
                        ||| (out@[i] matches PacketItem::Keep(m2) && call_ensures(
                            *f,
                            (m,),
                            Ok(m2),
                        ))
                        ||| (out@[i] matches PacketItem::Abort(m2, e) && call_ensures(
                            *f,
                            (m,),
                            Err((m2, e)),
                        ))
                    },
                    _ => out@[i] == all[i],
                },
        decreases n - k,
    {
        let item = batch.remove(0);
        proof {
            assert(all.skip(k as int)[0] == all[k as int]);
            assert(batch@ =~= all.skip(k + 1));
        }
        match item {
            PacketItem::Keep(m) => match f(m) {
                Ok(m2) => {
                    out.push(PacketItem::Keep(m2));
                }
                Err((m2, e)) => {
                    out.push(PacketItem::Abort(m2, e));
                }
            },
            other => {
                out.push(other);
            }
        }
        k = k + 1;
    }
    out
}

/// The filter stage: a packet still flowing that the predicate rejects is
/// marked to drop.  Emitted, dropped and aborted packets pass through.
pub fn filter_stage<P: Fn(&MBuf) -> bool>(batch: Vec<PacketItem>, pred: &P) -> (r: Vec<
    PacketItem,
>)
    requires
        forall|m: &MBuf| #[trigger] call_requires(*pred, (m,)),
    ensures
        r@.len() == batch@.len(),
        forall|i: int|
            0 <= i < batch@.len() ==> match #[trigger] batch@[i] {
                PacketItem::Keep(m) => {
                    ||| (r@[i] == PacketItem::Keep(m) && call_ensures(*pred, (&m,), true))
                    ||| (r@[i] == PacketItem::Drop(m) && call_ensures(*pred, (&m,), false))
                },
                _ => r@[i] == batch@[i],
            },
{
    let mut out: Vec<PacketItem> = Vec::new();
    let ghost all = batch@;
    let mut batch = batch;
    let n = batch.len();
    let mut k: usize = 0;
    while k < n
        invariant
            k <= n,
            n == all.len(),
            batch@ == all.skip(k as int),
            out@.len() == k,
            forall|m: &MBuf| #[trigger] call_requires(*pred, (m,)),
            forall|i: int|
                0 <= i < k ==> match #[trigger] all[i] {
                    PacketItem::Keep(m) => {
                        ||| (out@[i] == PacketItem::Keep(m) && call_ensures(*pred, (&m,), true))
                        ||| (out@[i] == PacketItem::Drop(m) && call_ensures(*pred, (&m,), false))
                    },
                    _ => out@[i] == all[i],
                },
        decreases n - k,
    {
        let item = batch.remove(0);
        proof {
            assert(all.skip(k as int)[0] == all[k as int]);
            assert(batch@ =~= all.skip(k + 1));
        }
        match item {
            PacketItem::Keep(m) => {
                if pred(&m) {
                    out.push(PacketItem::Keep(m));
                } else {
                    out.push(PacketItem::Drop(m));
                }
            }
            other => {
                out.push(other);
            }
        }
        k = k + 1;
    }
    out
}

/// A send operator at the end of a pipeline: pulls one batch per turn from
/// its source and runs the plain send stage on it.
pub struct SendBatch<B: Batch> {
    pub source: B,
    pub port: MemQueue,
    pub drop_q: Vec<MBuf>,
}

impl<B: Batch> SendBatch<B> {
    /// A send operator between `source` and `port`.
    pub fn new(source: B, port: MemQueue) -> (r: SendBatch<B>)
        ensures
            r.source == source,
            r.port == port,
            r.drop_q@.len() == 0,
    {
        SendBatch { source, port, drop_q: Vec::new() }
    }
}

impl<B: Batch> Executable for SendBatch<B> {
    /// One turn: pull a batch from the source and run the plain send stage
    /// on it.  Whatever batch the source produced, its transmittable items
    /// land on the port in order, the rest in the drop queue, and every
    /// item leaves exactly once.
    fn execute(&mut self) -> (r: usize)
        ensures
            exists|b: Seq<PacketItem>|
                {
                    &&& final(self).port.outgoing@ == old(self).port.outgoing@ + #[trigger]
                        send_kept(b)
                    &&& final(self).drop_q@ == old(self).drop_q@ + send_freed(b)
                    &&& r == send_kept(b).len()
                    &&& r + send_freed(b).len() == b.len()
                },
            final(self).port.incoming@ == old(self).port.incoming@,
    {
        self.source.receive();
        let mut batch: Vec<PacketItem> = Vec::new();
        let mut budget: usize = 0;
        while budget < BATCH_SIZE
            invariant
                batch@.len() <= budget,
                self.port == old(self).port,
                self.drop_q@ == old(self).drop_q@,
            decreases BATCH_SIZE - budget,
        {
            match self.source.next() {
                Some(item) => {
                    batch.push(item);
                }
                None => {
                    break ;
                }
            }
            budget = budget + 1;
        }
        let ghost drawn = batch@;
        let sent = send_stage(&mut self.port, batch, &mut self.drop_q);
        proof {
            assert(self.port.outgoing@ == old(self).port.outgoing@ + send_kept(drawn));
            assert(self.drop_q@ == old(self).drop_q@ + send_freed(drawn));
        }
        sent
    }

    fn dependencies(&mut self) -> Vec<usize> {
        Vec::new()
    }
}

/// A send-all operator at the end of a pipeline: pulls one batch per turn
/// from its source and runs the send-all stage on it, so that even packets
/// marked to drop are transmitted.
pub struct SendAllBatch<B: Batch> {
    pub source: B,
    pub port: MemQueue,
    pub drop_q: Vec<MBuf>,
}

impl<B: Batch> SendAllBatch<B> {
    /// A send-all operator between `source` and `port`.
    pub fn new(source: B, port: MemQueue) -> (r: SendAllBatch<B>)
        ensures
            r.source == source,
            r.port == port,
            r.drop_q@.len() == 0,
    {
        SendAllBatch { source, port, drop_q: Vec::new() }
    }
}

impl<B: Batch> Executable for SendAllBatch<B> {
    /// One turn: pull a batch from the source and run the send-all stage
    /// on it.  Whatever batch the source produced, everything but its
    /// aborted items lands on the port in order, the aborted items in the
    /// drop queue, and every item leaves exactly once.
    fn execute(&mut self) -> (r: usize)
        ensures
            exists|b: Seq<PacketItem>|
                {
                    &&& final(self).port.outgoing@ == old(self).port.outgoing@ + #[trigger]
                        sendall_kept(b)
                    &&& final(self).drop_q@ == old(self).drop_q@ + sendall_freed(b)
                    &&& r == sendall_kept(b).len()
                    &&& r + sendall_freed(b).len() == b.len()
                },
            final(self).port.incoming@ == old(self).port.incoming@,
    {
        self.source.receive();
        let mut batch: Vec<PacketItem> = Vec::new();
        let mut budget: usize = 0;
        while budget < BATCH_SIZE
            invariant
                batch@.len() <= budget,
                self.port == old(self).port,
                self.drop_q@ == old(self).drop_q@,
            decreases BATCH_SIZE - budget,
        {
            match self.source.next() {
                Some(item) => {
                    batch.push(item);
                }
                None => {
                    break ;
                }
            }
            budget = budget + 1;
        }
        let ghost drawn = batch@;
        let sent = sendall_stage(&mut self.port, batch, &mut self.drop_q);
        proof {
            assert(self.port.outgoing@ == old(self).port.outgoing@ + sendall_kept(drawn));
            assert(self.drop_q@ == old(self).drop_q@ + sendall_freed(drawn));
        }
        sent
    }

    fn dependencies(&mut self) -> Vec<usize> {
        Vec::new()
    }
}

/// Round-robin over several finished pipelines: each call to `process`
/// runs one of them and advances the cursor.
pub struct MergeBatch<T: Executable> {
    pub parents: Vec<T>,
    pub which: usize,
}

impl<T: Executable> MergeBatch<T> {
    /// Merge the given pipelines.
    pub fn new(parents: Vec<T>) -> (r: MergeBatch<T>)
        ensures
            r.parents == parents,
            r.which == 0,
    {
        MergeBatch { parents, which: 0 }
    }

    /// Run the pipeline under the cursor and advance round-robin.
    pub fn process(&mut self)
        requires
            old(self).which < old(self).parents@.len() || old(self).which == 0,
        ensures
            final(self).parents@.len() == old(self).parents@.len(),
            old(self).parents@.len() > 0 ==> final(self).which == (old(self).which + 1) % (old(
                self,
            ).parents@.len() as int),
            old(self).parents@.len() == 0 ==> *final(self) == *old(self),
            forall|j: int|
                0 <= j < old(self).parents@.len() && j != old(self).which
                    ==> final(self).parents@[j] == #[trigger] old(self).parents@[j],
    {
        if self.parents.len() == 0 {
            return ;
        }
        let idx = self.which;
        let parent = &mut self.parents[idx];
        parent.execute();
        self.which = (self.which + 1) % self.parents.len();
    }
}

} // verus!
