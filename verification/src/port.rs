//! The simulation port: an RX/TX queue pair bridged to a pair of
//! descriptor rings, with monotonic receive and send counters.

use vstd::prelude::*;

verus! {

use crate::operators::BATCH_SIZE;
use crate::ring::{RingBuffer, RingPoll};

/// Port-level error, carrying a description.
#[derive(Debug)]
pub struct PortError(pub String);

/// A simulation port; it hands out queue pairs, which carry the port's
/// receive and send statistics.
pub struct SimulatePort {
}

impl SimulatePort {
    /// A fresh port.
    pub fn new(port_config: &crate::config::PortConfiguration) -> (r: Result<
        SimulatePort,
        PortError,
    >)
        ensures
            r is Ok,
    {
        let _ = port_config;
        Ok(SimulatePort {  })
    }

    /// Build the RX/TX queue pair of this port over an attached pair of
    /// rings.
    pub fn new_simulate_queue(&self, queue: i32, recvq_ring: RingBuffer, sendq_ring: RingBuffer)
        -> (r: Result<SimulateQueue, PortError>)
        requires
            recvq_ring.wf(),
            sendq_ring.wf(),
        ensures
            match r {
                Ok(q) => {
                    &&& q.recvq_ring == recvq_ring
                    &&& q.sendq_ring == sendq_ring
                    &&& q.stats_rx == 0
                    &&& q.stats_tx == 0
                },
                Err(e) => false,
            },
    {
        let _ = queue;
        Ok(SimulateQueue { recvq_ring, sendq_ring, stats_rx: 0, stats_tx: 0 })
    }

    /// The port's receive and send statistics: the totals its queue pair
    /// has taken from the receive ring and submitted to the send ring
    /// since creation.  The counters live on the queue, which the caller
    /// holds; they are never reset during a run.
    pub fn stats(&self, queue: &SimulateQueue) -> (r: (usize, usize))
        requires
            queue.stats_rx <= usize::MAX,
            queue.stats_tx <= usize::MAX,
        ensures
            r.0 == queue.stats_rx,
            r.1 == queue.stats_tx,
    {
        (queue.stats_rx as usize, queue.stats_tx as usize)
    }
}

/// One RX/TX queue pair: descriptors come in over the receive ring and go
/// out over the send ring.
pub struct SimulateQueue {
    pub recvq_ring: RingBuffer,
    pub sendq_ring: RingBuffer,
    pub stats_rx: u64,
    pub stats_tx: u64,
}

impl SimulateQueue {
    /// Push a batch of descriptors onto the send ring; as many as fit are
    /// accepted, in order, and the send counter grows by that many.
    pub fn send(&mut self, pkts: &Vec<u64>) -> (r: usize)
        requires
            old(self).sendq_ring.wf(),
            !old(self).sendq_ring.stopped(),
            old(self).stats_tx + pkts@.len() <= u64::MAX,
        ensures
            final(self).sendq_ring.wf(),
            r == vstd::math::min(
                pkts@.len() as int,
                old(self).sendq_ring.capacity() as int - old(self).sendq_ring.queued().len() as int,
            ),
            final(self).sendq_ring.written() == old(self).sendq_ring.written() + pkts@.take(
                r as int,
            ),
            final(self).sendq_ring.taken() == old(self).sendq_ring.taken(),
            final(self).stats_tx == old(self).stats_tx + r,
            final(self).recvq_ring == old(self).recvq_ring,
            final(self).stats_rx == old(self).stats_rx,
    {
        let sent = self.sendq_ring.write_at_tail(pkts);
        self.stats_tx = self.stats_tx + sent as u64;
        sent
    }

    /// Pull up to one batch of descriptors off the receive ring.  When the
    /// stop sentinel is observed nothing is read and the caller must
    /// terminate.
    pub fn recv(&mut self) -> (r: RingPoll)
        requires
            old(self).recvq_ring.wf(),
            old(self).stats_rx + BATCH_SIZE <= u64::MAX,
        ensures
            final(self).recvq_ring.wf(),
            final(self).recvq_ring.written() == old(self).recvq_ring.written(),
            final(self).sendq_ring == old(self).sendq_ring,
            final(self).stats_tx == old(self).stats_tx,
            match r {
                RingPoll::Stopped => {
                    &&& old(self).recvq_ring.stopped()
                    &&& final(self).recvq_ring == old(self).recvq_ring
                    &&& final(self).stats_rx == old(self).stats_rx
                },
                RingPoll::Received(v) => {
                    &&& !old(self).recvq_ring.stopped()
                    &&& v@.len() == vstd::math::min(
                        BATCH_SIZE as int,
                        old(self).recvq_ring.queued().len() as int,
                    )
                    &&& v@ == old(self).recvq_ring.queued().take(v@.len() as int)
                    &&& final(self).recvq_ring.taken() == old(self).recvq_ring.taken() + v@
                    &&& final(self).stats_rx == old(self).stats_rx + v@.len()
                },
            },
    {
        let polled = self.recvq_ring.read_from_head(BATCH_SIZE);
        match polled {
            RingPoll::Stopped => RingPoll::Stopped,
            RingPoll::Received(v) => {
                self.stats_rx = self.stats_rx + v.len() as u64;
                RingPoll::Received(v)
            }
        }
    }
}

/// Whether `b` is the ASCII digits of a decimal number (at least one
/// digit).
pub open spec fn all_digits(b: Seq<u8>) -> bool {
    b.len() >= 1 && forall|i: int| 0 <= i < b.len() ==> 0x30 <= #[trigger] b[i] <= 0x39
}

/// The value of the ASCII decimal digits `b`.
pub open spec fn dec_val(b: Seq<u8>) -> int
    decreases b.len(),
{
    if b.len() == 0 {
        0
    } else {
        dec_val(b.drop_last()) * 10 + (b.last() - 0x30)
    }
}

/// Parse the ASCII digits `b[from..to]` as a decimal number that fits in
/// 64 bits.
fn parse_decimal(b: &Vec<u8>, from: usize, to: usize) -> (r: Option<u64>)
    requires
        from <= to <= b@.len(),
    ensures
        match r {
            Some(v) => {
                &&& all_digits(b@.subrange(from as int, to as int))
                &&& v == dec_val(b@.subrange(from as int, to as int))
            },
            None => !all_digits(b@.subrange(from as int, to as int)) || dec_val(
                b@.subrange(from as int, to as int),
            ) > u64::MAX,
        },
{
    if from == to {
        proof {
            assert(!all_digits(b@.subrange(from as int, to as int)));
        }
        return None;
    }
    let mut acc: u64 = 0;
    let mut i: usize = from;
    while i < to
        invariant
            from <= i <= to <= b@.len(),
            all_digits(b@.subrange(from as int, i as int)) || i == from,
            acc == dec_val(b@.subrange(from as int, i as int)),
            to > from,
        decreases to - i,
    {
        let c = b[i];
        if c < 0x30 || c > 0x39 {
            proof {
                assert(b@.subrange(from as int, to as int)[i - from] == c);
            }
            return None;
        }
        let d: u64 = (c - 0x30) as u64;
        if acc > (u64::MAX - d) / 10 {
            proof {
                if all_digits(b@.subrange(from as int, to as int)) {
                    assert forall|j: int| from <= j < to implies 0x30 <= #[trigger] b@[j]
                        <= 0x39 by {
                        assert(b@.subrange(from as int, to as int)[j - from] == b@[j]);
                    }
                    lemma_dec_val_monotonic(b@, from as int, i + 1, to as int);
                    assert(b@.subrange(from as int, i + 1).drop_last() =~= b@.subrange(
                        from as int,
                        i as int,
                    ));
                    assert(b@.subrange(from as int, i + 1).last() == c);
                    assert(dec_val(b@.subrange(from as int, i + 1)) == acc * 10 + d);
                }
            }
            return None;
        }
        acc = acc * 10 + d;
        proof {
            assert(b@.subrange(from as int, i + 1).drop_last() =~= b@.subrange(
                from as int,
                i as int,
            ));
            assert(b@.subrange(from as int, i + 1).last() == c);
            assert forall|j: int| 0 <= j < i + 1 - from implies 0x30 <= #[trigger] b@.subrange(
                from as int,
                i + 1,
            )[j] <= 0x39 by {
                if j < i - from {
                    assert(b@.subrange(from as int, i + 1)[j] == b@.subrange(
                        from as int,
                        i as int,
                    )[j]);
                }
            }
        }
        i = i + 1;
    }
    Some(acc)
}

/// Appending digits never shrinks the value: used to show that an overflow
/// at some prefix means the whole number overflows.
proof fn lemma_dec_val_monotonic(b: Seq<u8>, from: int, mid: int, to: int)
    requires
        0 <= from <= mid <= to <= b.len(),
        forall|i: int| from <= i < to ==> 0x30 <= #[trigger] b[i] <= 0x39,
    ensures
        dec_val(b.subrange(from, to)) >= dec_val(b.subrange(from, mid)),
    decreases to - mid,
{
    if mid < to {
        lemma_dec_val_monotonic(b, from, mid + 1, to);
        assert(b.subrange(from, mid + 1).drop_last() =~= b.subrange(from, mid));
        assert(dec_val(b.subrange(from, mid + 1)) == dec_val(b.subrange(from, mid)) * 10 + (
        b.subrange(from, mid + 1).last() - 0x30));
        assert forall|j: int| 0 <= j < b.subrange(from, mid).len() implies 0x30 <= #[trigger]
            b.subrange(from, mid)[j] <= 0x39 by {
            assert(b.subrange(from, mid)[j] == b[from + j]);
        }
        lemma_dec_val_nonneg(b.subrange(from, mid));
    }
}

/// A digit string's value is never negative.
proof fn lemma_dec_val_nonneg(b: Seq<u8>)
    requires
        forall|i: int| 0 <= i < b.len() ==> 0x30 <= #[trigger] b[i] <= 0x39,
    ensures
        dec_val(b) >= 0,
    decreases b.len(),
{
    if b.len() > 0 {
        assert forall|j: int| 0 <= j < b.drop_last().len() implies 0x30 <= #[trigger]
            b.drop_last()[j] <= 0x39 by {
            assert(b.drop_last()[j] == b[j]);
        }
        lemma_dec_val_nonneg(b.drop_last());
    }
}

/// Index where a line's content ends: a single trailing newline does not
/// count.
pub open spec fn line_end(b: Seq<u8>) -> int {
    if b.len() > 0 && b.last() == 0x0a {
        b.len() - 1
    } else {
        b.len() as int
    }
}

/// Whether `sp` splits the line into two decimal ring identifiers that fit
/// in 64 bits, separated by one space.
pub open spec fn rendezvous_split_ok(b: Seq<u8>, sp: int) -> bool {
    &&& 0 < sp < line_end(b)
    &&& b[sp] == 0x20
    &&& all_digits(b.subrange(0, sp))
    &&& all_digits(b.subrange(sp + 1, line_end(b)))
    &&& dec_val(b.subrange(0, sp)) <= u64::MAX
    &&& dec_val(b.subrange(sp + 1, line_end(b))) <= u64::MAX
}

/// Whether the line is a well-formed rendezvous line at all.
pub open spec fn rendezvous_line_ok(b: Seq<u8>) -> bool {
    exists|sp: int| rendezvous_split_ok(b, sp)
}

/// Parse a rendezvous line: two decimal ring identifiers separated by one
/// space, optionally terminated by a newline.  Exactly the well-formed
/// lines parse.
pub fn parse_rendezvous_line(line: &Vec<u8>) -> (r: Option<(u64, u64)>)
    ensures
        r is Some <==> rendezvous_line_ok(line@),
        match r {
            Some((a, b)) => exists|sp: int|
                {
                    &&& #[trigger] rendezvous_split_ok(line@, sp)
                    &&& a == dec_val(line@.subrange(0, sp))
                    &&& b == dec_val(line@.subrange(sp + 1, line_end(line@)))
                },
            None => true,
        },
{
    let mut end: usize = line.len();
    if end > 0 && line[end - 1] == 0x0a {
        end = end - 1;
    }
    proof {
        assert(end == line_end(line@));
    }
    let sp: usize = match find_first_space(line, end) {
        Some(sp) => sp,
        None => {
            proof {
                lemma_no_other_split(line@, end as int);
            }
            return None;
        }
    };
    if sp == 0 || sp + 1 >= end {
        proof {
            lemma_unique_split(line@, sp as int);
        }
        return None;
    }
    let a = match parse_decimal(line, 0, sp) {
        Some(v) => v,
        None => {
            proof {
                lemma_unique_split(line@, sp as int);
            }
            return None;
        }
    };
    let b = match parse_decimal(line, sp + 1, end) {
        Some(v) => v,
        None => {
            proof {
                lemma_unique_split(line@, sp as int);
            }
            return None;
        }
    };
    proof {
        assert(rendezvous_split_ok(line@, sp as int));
    }
    Some((a, b))
}

/// The index of the first space before `end`, if any.
fn find_first_space(line: &Vec<u8>, end: usize) -> (r: Option<usize>)
    requires
        end <= line@.len(),
    ensures
        match r {
            Some(sp) => {
                &&& sp < end
                &&& line@[sp as int] == 0x20
                &&& forall|j: int| 0 <= j < sp ==> line@[j] != 0x20
            },
            None => forall|j: int| 0 <= j < end ==> line@[j] != 0x20,
        },
{
    let mut i: usize = 0;
    while i < end
        invariant
            i <= end <= line@.len(),
            forall|j: int| 0 <= j < i ==> line@[j] != 0x20,
        decreases end - i,
    {
        if line[i] == 0x20 {
            return Some(i);
        }
        i = i + 1;
    }
    None
}

/// With no space before the line's end, no split is well-formed.
proof fn lemma_no_other_split(b: Seq<u8>, end: int)
    requires
        end == line_end(b),
        forall|j: int| 0 <= j < end ==> b[j] != 0x20,
    ensures
        !rendezvous_line_ok(b),
{
    assert forall|sp: int| !rendezvous_split_ok(b, sp) by {
        if 0 < sp < end {
            assert(b[sp] != 0x20);
        }
    }
}

/// Only the first space can carry a well-formed split: a later split would
/// put that space among the digits of its first part.
proof fn lemma_unique_split(b: Seq<u8>, sp: int)
    requires
        0 <= sp < line_end(b),
        b[sp] == 0x20,
        forall|j: int| 0 <= j < sp ==> b[j] != 0x20,
    ensures
        forall|sp2: int| sp2 != sp ==> !#[trigger] rendezvous_split_ok(b, sp2),
{
    assert forall|sp2: int| sp2 != sp implies !#[trigger] rendezvous_split_ok(b, sp2) by {
        if 0 < sp2 < line_end(b) && b[sp2] == 0x20 {
            if sp2 < sp {
                assert(b[sp2] != 0x20);
            } else {
                // the space at sp sits inside the first part's digits
                if all_digits(b.subrange(0, sp2)) {
                    assert(b.subrange(0, sp2)[sp] == b[sp]);
                }
            }
        }
    }
}

} // verus!
