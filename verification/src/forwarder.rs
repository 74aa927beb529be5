//! The host-side forwarder: one iteration moves a batch of descriptors
//! from the NIC into the receive ring and a batch from the send ring back
//! towards the NIC.  On shutdown the stop sentinel is published on the
//! receive ring.

use vstd::prelude::*;

verus! {

use crate::ring::{RingBuffer, RingPoll};

/// The per-queue forwarder state: the ring pair of one enclave queue and
/// the direction counters.
pub struct HostForwarder {
    pub recvq: RingBuffer,
    pub sendq: RingBuffer,
    pub pkt_count_from_nic: u64,
    pub pkt_count_from_enclave: u64,
    pub pull_count: u64,
}

impl HostForwarder {
    /// Both rings well-formed.
    pub open spec fn wf(&self) -> bool {
        &&& self.recvq.wf()
        &&& self.sendq.wf()
    }

    /// A forwarder over a fresh ring pair.
    pub fn new(recvq: RingBuffer, sendq: RingBuffer) -> (r: HostForwarder)
        requires
            recvq.wf(),
            sendq.wf(),
        ensures
            r.wf(),
            r.recvq == recvq,
            r.sendq == sendq,
            r.pkt_count_from_nic == 0,
            r.pkt_count_from_enclave == 0,
            r.pull_count == 0,
    {
        HostForwarder { recvq, sendq, pkt_count_from_nic: 0, pkt_count_from_enclave: 0, pull_count: 0 }
    }

    /// One forwarding iteration: the batch received from the NIC goes onto
    /// the receive ring (as much of it as fits; the rest is the caller's to
    /// retry under backpressure), and up to `max_tx` descriptors come off
    /// the send ring for transmission to the NIC.
    pub fn step(&mut self, from_nic: &Vec<u64>, max_tx: usize) -> (r: (usize, Vec<u64>))
        requires
            old(self).wf(),
            !old(self).recvq.stopped(),
            !old(self).sendq.stopped(),
            old(self).pkt_count_from_nic + from_nic@.len() <= u64::MAX,
            old(self).pkt_count_from_enclave + max_tx <= u64::MAX,
            old(self).pull_count < u64::MAX,
        ensures
            final(self).wf(),
            r.0 == vstd::math::min(
                from_nic@.len() as int,
                old(self).recvq.capacity() as int - old(self).recvq.queued().len() as int,
            ),
            final(self).recvq.written() == old(self).recvq.written() + from_nic@.take(r.0 as int),
            final(self).recvq.taken() == old(self).recvq.taken(),
            r.1@.len() == vstd::math::min(max_tx as int, old(self).sendq.queued().len() as int),
            r.1@ == old(self).sendq.queued().take(r.1@.len() as int),
            final(self).sendq.taken() == old(self).sendq.taken() + r.1@,
            final(self).sendq.written() == old(self).sendq.written(),
            final(self).pkt_count_from_nic == old(self).pkt_count_from_nic + r.0,
            final(self).pkt_count_from_enclave == old(self).pkt_count_from_enclave + r.1@.len(),
            final(self).pull_count == old(self).pull_count + 1,
    {
        let accepted = self.recvq.write_at_tail(from_nic);
        let to_nic: Vec<u64> = match self.sendq.read_from_head(max_tx) {
            RingPoll::Stopped => {
                proof {
                    assert(false);
                }
                Vec::new()
            }
            RingPoll::Received(v) => v,
        };
        self.pkt_count_from_nic = self.pkt_count_from_nic + accepted as u64;
        self.pkt_count_from_enclave = self.pkt_count_from_enclave + to_nic.len() as u64;
        self.pull_count = self.pull_count + 1;
        (accepted, to_nic)
    }

    /// Publish the stop sentinel on the receive ring, telling the enclave
    /// consumer to terminate.
    pub fn publish_stop(&mut self)
        requires
            old(self).wf(),
        ensures
            final(self).wf(),
            final(self).recvq.stopped(),
            final(self).recvq.written() == old(self).recvq.written(),
            final(self).recvq.taken() == old(self).recvq.taken(),
            final(self).sendq == old(self).sendq,
    {
        self.recvq.publish_stop();
    }
}

} // verus!
