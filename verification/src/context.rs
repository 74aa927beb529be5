//! Runtime assembly: build the ports and queue pairs a configuration
//! describes, each queue pair backed by a fresh ring pair.

use vstd::prelude::*;

verus! {

use crate::config::{NetBricksConfiguration, NUM_RXD, NUM_TXD};
use crate::port::{PortError, SimulatePort, SimulateQueue};
use crate::ring::RingBuffer;

/// Total number of receive queues a port list configures.
pub open spec fn total_rx_queues(ports: Seq<crate::config::PortConfiguration>) -> int
    decreases ports.len(),
{
    if ports.len() == 0 {
        0
    } else {
        total_rx_queues(ports.drop_last()) + ports.last().rx_queues@.len()
    }
}

/// A queue pair as `initialize_system` hands it out: both rings fresh,
/// empty and running, with the configured slot counts, and zeroed
/// statistics.
pub open spec fn queue_fresh(q: SimulateQueue) -> bool {
    &&& q.recvq_ring.wf()
    &&& !q.recvq_ring.stopped()
    &&& q.recvq_ring.capacity() == NUM_RXD
    &&& q.recvq_ring.written() == Seq::<u64>::empty()
    &&& q.recvq_ring.taken() == Seq::<u64>::empty()
    &&& q.sendq_ring.wf()
    &&& !q.sendq_ring.stopped()
    &&& q.sendq_ring.capacity() == NUM_TXD
    &&& q.sendq_ring.written() == Seq::<u64>::empty()
    &&& q.sendq_ring.taken() == Seq::<u64>::empty()
    &&& q.stats_rx == 0
    &&& q.stats_tx == 0
}

/// Handles to every port and queue pair the runtime initialized.
pub struct NetBricksContext {
    pub ports: Vec<SimulatePort>,
    pub rx_queues: Vec<SimulateQueue>,
    pub active_cores: Vec<i32>,
}

impl NetBricksContext {
    /// The context's queues all carry well-formed, running rings.
    pub open spec fn wf(&self) -> bool {
        forall|i: int|
            0 <= i < self.rx_queues@.len() ==> {
                &&& (#[trigger] self.rx_queues@[i]).recvq_ring.wf()
                &&& self.rx_queues@[i].sendq_ring.wf()
            }
    }
}

/// Initialize the runtime: one port per configured port, and one queue
/// pair, over a fresh receive/send ring pair, per configured receive
/// queue.
pub fn initialize_system(configuration: &NetBricksConfiguration) -> (r: Result<
    NetBricksContext,
    PortError,
>)
    ensures
        match r {
            Ok(ctx) => {
                &&& ctx.wf()
                &&& ctx.ports@.len() == configuration.ports@.len()
                &&& ctx.rx_queues@.len() == total_rx_queues(configuration.ports@)
                &&& forall|i: int|
                    0 <= i < ctx.rx_queues@.len() ==> queue_fresh(#[trigger] ctx.rx_queues@[i])
                &&& ctx.active_cores@ == seq![0i32]
            },
            Err(e) => false,
        },
{
    let mut ctx = NetBricksContext {
        ports: Vec::new(),
        rx_queues: Vec::new(),
        active_cores: Vec::new(),
    };
    let mut p: usize = 0;
    while p < configuration.ports.len()
        invariant
            p <= configuration.ports@.len(),
            ctx.ports@.len() == p,
            ctx.active_cores@.len() == 0,
            ctx.rx_queues@.len() == total_rx_queues(configuration.ports@.take(p as int)),
            forall|i: int|
                0 <= i < ctx.rx_queues@.len() ==> queue_fresh(#[trigger] ctx.rx_queues@[i]),
            ctx.wf(),
        decreases configuration.ports@.len() - p,
    {
        let port_cfg = &configuration.ports[p];
        let port = match SimulatePort::new(port_cfg) {
            Ok(port) => port,
            Err(e) => {
                proof {
                    assert(false);
                }
                return Err(e);
            }
        };
        let mut rx_q: usize = 0;
        let n_rx = port_cfg.rx_queues.len();
        while rx_q < n_rx
            invariant
                rx_q <= n_rx,
                ctx.wf(),
                ctx.ports@.len() == p,
                ctx.active_cores@.len() == 0,
                p < configuration.ports@.len(),
                n_rx == configuration.ports@[p as int].rx_queues@.len(),
                ctx.rx_queues@.len() == total_rx_queues(configuration.ports@.take(p as int))
                    + rx_q,
                forall|i: int|
                    0 <= i < ctx.rx_queues@.len() ==> queue_fresh(#[trigger] ctx.rx_queues@[i]),
            decreases n_rx - rx_q,
        {
            let recvq_ring = match RingBuffer::new_in_heap(NUM_RXD as u64) {
                Ok(r) => r,
                Err(_) => {
                    proof {
                        vstd::arithmetic::power2::lemma2_to64();
                        assert(crate::ring::ring_size_ok(128)) by {
                            assert(vstd::arithmetic::power2::pow2(7) == 128) by {
                                vstd::arithmetic::power2::lemma2_to64();
                            }
                        }
                        assert(false);
                    }
                    return Err(PortError(String::new()));
                }
            };
            let sendq_ring = match RingBuffer::new_in_heap(NUM_TXD as u64) {
                Ok(r) => r,
                Err(_) => {
                    proof {
                        assert(crate::ring::ring_size_ok(128)) by {
                            assert(vstd::arithmetic::power2::pow2(7) == 128) by {
                                vstd::arithmetic::power2::lemma2_to64();
                            }
                        }
                        assert(false);
                    }
                    return Err(PortError(String::new()));
                }
            };
            let queue = match port.new_simulate_queue(
                #[verifier::truncate] (rx_q as i32),
                recvq_ring,
                sendq_ring,
            ) {
                Ok(q) => q,
                Err(e) => {
                    proof {
                        assert(false);
                    }
                    return Err(e);
                }
            };
            ctx.rx_queues.push(queue);
            rx_q = rx_q + 1;
        }
        ctx.ports.push(port);
        proof {
            assert(configuration.ports@.take(p + 1).drop_last() =~= configuration.ports@.take(
                p as int,
            ));
            assert(configuration.ports@.take(p + 1).last() == configuration.ports@[p as int]);
        }
        p = p + 1;
    }
    ctx.active_cores.push(0);
    proof {
        assert(ctx.active_cores@ =~= seq![0i32]);
        assert(configuration.ports@.take(configuration.ports@.len() as int)
            =~= configuration.ports@);
    }
    Ok(ctx)
}

impl NetBricksContext {
    /// The install callback surface: hand the queue pairs and a fresh
    /// scheduler with the given packet budget to the installer, which
    /// registers its pipelines, then drive the scheduler.
    pub fn run<T: crate::scheduler::Executable, F: FnOnce(
        Vec<SimulateQueue>,
        crate::scheduler::StandaloneScheduler<T>,
    ) -> crate::scheduler::StandaloneScheduler<T>>(self, installer: F, npkts: u64) -> (r:
        crate::scheduler::StandaloneScheduler<T>)
        requires
            forall|s: crate::scheduler::StandaloneScheduler<T>|
                s.wf() ==> #[trigger] call_requires(installer, (self.rx_queues, s)),
            forall|s: crate::scheduler::StandaloneScheduler<T>, r2:
                crate::scheduler::StandaloneScheduler<T>|
                #[trigger] call_ensures(installer, (self.rx_queues, s), r2) ==> r2.wf(),
        ensures
            r.wf(),
            r.looping,
            exists|fresh: crate::scheduler::StandaloneScheduler<T>, mid:
                crate::scheduler::StandaloneScheduler<T>|
                {
                    &&& fresh.run_q@.len() == 0
                    &&& fresh.next_task == 0
                    &&& !fresh.looping
                    &&& fresh.npkts == 0
                    &&& fresh.tol_pkts == npkts
                    &&& #[trigger] call_ensures(installer, (self.rx_queues, fresh), mid)
                    &&& r.run_q@.len() == mid.run_q@.len()
                    &&& r.npkts >= mid.npkts
                    &&& r.tol_pkts == mid.tol_pkts
                },
    {
        let sched = crate::scheduler::StandaloneScheduler::<T>::new(npkts);
        let ghost fresh_sched = sched;
        let mut sched = installer(self.rx_queues, sched);
        let ghost installed = sched;
        sched.execute_loop();
        proof {
            assert(call_ensures(installer, (self.rx_queues, fresh_sched), installed));
        }
        sched
    }
}

/// The runtime: a context plus the entry points the host program drives.
pub struct Runtime {
    pub context: NetBricksContext,
}

impl Runtime {
    /// Initialize the context a configuration describes.
    pub fn init(configuration: &NetBricksConfiguration) -> (r: Result<Runtime, PortError>)
        ensures
            match r {
                Ok(rt) => {
                    &&& rt.context.wf()
                    &&& rt.context.ports@.len() == configuration.ports@.len()
                    &&& rt.context.rx_queues@.len() == total_rx_queues(configuration.ports@)
                    &&& forall|i: int|
                        0 <= i < rt.context.rx_queues@.len() ==> queue_fresh(
                            #[trigger] rt.context.rx_queues@[i],
                        )
                },
                Err(e) => false,
            },
    {
        match initialize_system(configuration) {
            Ok(context) => Ok(Runtime { context }),
            Err(e) => {
                proof {
                    assert(false);
                }
                Err(e)
            }
        }
    }
}

} // verus!
