//! Tests of the operator pipeline, the scheduler, the simulation port and
//! the host forwarder, including the macswap echo scenario.

use safebricks::buffer::read_slice;
use safebricks::config::{load_config, NUM_RXD};
use safebricks::context::{initialize_system, Runtime};
use safebricks::ethernet::Ethernet;
use safebricks::forwarder::HostForwarder;
use safebricks::mbuf::MBuf;
use safebricks::operators::{
    filter_stage, map_stage, send_stage, sendall_stage, Batch, MemQueue, MergeBatch, PacketItem,
    ReceiveBatch, RingReceiveBatch, SendBatch,
};
use safebricks::packet::{ParseError, RawPacket};
use safebricks::port::{parse_rendezvous_line, SimulatePort};
use safebricks::ring::{RingBuffer, RingPoll};
use safebricks::scheduler::{Executable, Runnable, StandaloneScheduler};

fn tagged_mbuf(tag: u8) -> MBuf {
    let mut m = MBuf::new(1);
    safebricks::buffer::write_u8(&mut m, 0, tag).unwrap();
    m
}

fn tag_of(m: &MBuf) -> u8 {
    safebricks::buffer::read_u8(m, 0).unwrap()
}

#[test]
fn send_stage_order_and_accounting() {
    let mut port = MemQueue::new();
    let mut free_q: Vec<MBuf> = Vec::new();
    let batch = vec![
        PacketItem::Keep(tagged_mbuf(1)),
        PacketItem::Drop(tagged_mbuf(2)),
        PacketItem::Emit(tagged_mbuf(3)),
        PacketItem::Abort(tagged_mbuf(4), ParseError::NotIcmpv6),
        PacketItem::Keep(tagged_mbuf(5)),
    ];
    let sent = send_stage(&mut port, batch, &mut free_q);
    // order within the batch is preserved on the wire
    let tags: Vec<u8> = port.outgoing.iter().map(tag_of).collect();
    assert_eq!(tags, vec![1, 3, 5]);
    assert_eq!(sent, 3);
    // every buffer left exactly once
    let freed: Vec<u8> = free_q.iter().map(tag_of).collect();
    assert_eq!(freed, vec![2, 4]);
    assert_eq!(sent + free_q.len(), 5);
}

#[test]
fn sendall_stage_transmits_drops() {
    let mut port = MemQueue::new();
    let mut free_q: Vec<MBuf> = Vec::new();
    let batch = vec![
        PacketItem::Drop(tagged_mbuf(1)),
        PacketItem::Abort(tagged_mbuf(2), ParseError::NotIcmpv6),
        PacketItem::Keep(tagged_mbuf(3)),
    ];
    let sent = sendall_stage(&mut port, batch, &mut free_q);
    let tags: Vec<u8> = port.outgoing.iter().map(tag_of).collect();
    assert_eq!(tags, vec![1, 3]);
    assert_eq!(sent, 2);
    assert_eq!(free_q.len(), 1);
    assert_eq!(tag_of(&free_q[0]), 2);
}

#[test]
fn map_and_filter_stages() {
    let batch = vec![
        PacketItem::Keep(tagged_mbuf(10)),
        PacketItem::Keep(tagged_mbuf(200)),
        PacketItem::Emit(tagged_mbuf(3)),
    ];
    // map: add one to the tag
    let mapped = map_stage(batch, &|mut m: MBuf| {
        let t = safebricks::buffer::read_u8(&m, 0).unwrap();
        safebricks::buffer::write_u8(&mut m, 0, t + 1).unwrap();
        Ok(m)
    });
    let tags: Vec<u8> = mapped.iter().map(|i| match i {
        PacketItem::Keep(m) => tag_of(m),
        PacketItem::Emit(m) => tag_of(m),
        _ => panic!("nothing aborts here"),
    }).collect();
    assert_eq!(tags, vec![11, 201, 3]);
    // filter: keep small tags; the rest are marked to drop
    let filtered = filter_stage(mapped, &|m: &MBuf| tag_of(m) < 100);
    let mut port = MemQueue::new();
    let mut free_q: Vec<MBuf> = Vec::new();
    let sent = send_stage(&mut port, filtered, &mut free_q);
    assert_eq!(sent, 2);
    assert_eq!(free_q.len(), 1);
    assert_eq!(tag_of(&free_q[0]), 201);
}

/// A map operator for the macswap scenario: parse the Ethernet header and
/// swap its addresses; a packet that fails to parse aborts.
struct MacswapSource {
    upstream: ReceiveBatch,
}

impl Batch for MacswapSource {
    fn receive(&mut self) {
        self.upstream.receive();
    }

    fn next(&mut self) -> Option<PacketItem> {
        match self.upstream.next() {
            None => None,
            Some(PacketItem::Keep(m)) => match Ethernet::do_parse(RawPacket::from_mbuf(m)) {
                Ok(mut eth) => {
                    eth.swap_addresses();
                    Some(PacketItem::Keep(eth.deparse().into_mbuf()))
                }
                Err(e) => panic!("macswap input must carry an Ethernet header: {:?}", e),
            },
            Some(other) => Some(other),
        }
    }
}

#[test]
fn macswap_echo() {
    // dst aa:bb:cc:dd:ee:ff, src 11:22:33:44:55:66, payload 0xdeadbeef
    let frame = vec![
        0xaa, 0xbb, 0xcc, 0xdd, 0xee, 0xff, //
        0x11, 0x22, 0x33, 0x44, 0x55, 0x66, //
        0x08, 0x00, //
        0xde, 0xad, 0xbe, 0xef,
    ];
    let mut m = MBuf::new(frame.len() as u32);
    safebricks::buffer::write_slice(&mut m, 0, &frame).unwrap();
    let mut rx_port = MemQueue::new();
    rx_port.incoming.push(m);
    let pipeline = MacswapSource { upstream: ReceiveBatch::new(rx_port) };
    let mut send = SendBatch::new(pipeline, MemQueue::new());
    let processed = send.execute();
    assert_eq!(processed, 1);
    assert_eq!(send.port.outgoing.len(), 1);
    let out = read_slice(&send.port.outgoing[0], 0, 18).unwrap();
    // expected: dst 11:22:33:44:55:66, src aa:bb:cc:dd:ee:ff, payload kept
    let mut expected: Vec<u8> = Vec::new();
    expected.extend_from_slice(&frame[6..12]);
    expected.extend_from_slice(&frame[0..6]);
    expected.extend_from_slice(&frame[12..]);
    assert_eq!(out, expected);
}

struct CountingTask {
    id: usize,
    log: Vec<usize>,
}

impl Executable for CountingTask {
    fn execute(&mut self) -> usize {
        self.log.push(self.id);
        1
    }

    fn dependencies(&mut self) -> Vec<usize> {
        Vec::new()
    }
}

#[test]
fn scheduler_round_robin() {
    let mut sched: StandaloneScheduler<CountingTask> = StandaloneScheduler::new(100);
    assert_eq!(sched.add_task(CountingTask { id: 0, log: Vec::new() }).unwrap(), 1);
    assert_eq!(sched.add_task(CountingTask { id: 1, log: Vec::new() }).unwrap(), 2);
    assert_eq!(sched.next_task, 0);
    sched.execute_internal();
    assert_eq!(sched.next_task, 1);
    sched.execute_internal();
    assert_eq!(sched.next_task, 0);
    sched.execute_internal();
    assert_eq!(sched.npkts, 3);
    assert_eq!(sched.run_q[0].task.log, vec![0, 0]);
    assert_eq!(sched.run_q[1].task.log, vec![1]);
}

#[test]
fn scheduler_budget_loop() {
    let mut sched: StandaloneScheduler<CountingTask> = StandaloneScheduler::new(5);
    sched.add_task(CountingTask { id: 0, log: Vec::new() }).unwrap();
    sched.execute_loop();
    assert_eq!(sched.npkts, 5);
}

#[test]
fn scheduler_run_applies_installer() {
    let sched: StandaloneScheduler<CountingTask> = StandaloneScheduler::new(10);
    let mut sched = sched.run(|mut s: StandaloneScheduler<CountingTask>| {
        s.add_task(CountingTask { id: 5, log: Vec::new() }).unwrap();
        s
    });
    assert_eq!(sched.run_q.len(), 1);
    sched.execute_loop();
    assert_eq!(sched.npkts, 10);
}

#[test]
fn runnable_counters_start_zero() {
    let r = Runnable::from_task(CountingTask { id: 9, log: Vec::new() });
    assert_eq!(r.cycles, 0);
    assert_eq!(r.last_run, 0);
    let b = Runnable::from_boxed_task(Box::new(CountingTask { id: 9, log: Vec::new() }));
    assert_eq!(b.cycles, 0);
}

#[test]
fn merge_batch_round_robin() {
    let parents = vec![
        CountingTask { id: 0, log: Vec::new() },
        CountingTask { id: 1, log: Vec::new() },
    ];
    let mut merge = MergeBatch::new(parents);
    merge.process();
    assert_eq!(merge.which, 1);
    merge.process();
    assert_eq!(merge.which, 0);
    assert_eq!(merge.parents[0].task_runs(), 1);
    assert_eq!(merge.parents[1].task_runs(), 1);
}

impl CountingTask {
    fn task_runs(&self) -> usize {
        self.log.len()
    }
}

#[test]
fn ring_receive_operator_resolves_descriptors() {
    let port_cfg = load_config().unwrap().ports.remove(0);
    let port = SimulatePort::new(&port_cfg).unwrap();
    let mut recvq = RingBuffer::new_in_heap(8).unwrap();
    // descriptors 0 and 2 name pooled buffers; 5 names none
    recvq.write_at_tail(&vec![0, 2, 5]);
    let sendq = RingBuffer::new_in_heap(8).unwrap();
    let q = port.new_simulate_queue(0, recvq, sendq).unwrap();
    let pool = vec![Some(tagged_mbuf(10)), None, Some(tagged_mbuf(12))];
    let mut rx = RingReceiveBatch::new(q, pool);
    rx.receive();
    assert!(!rx.stopped);
    match rx.next_item() {
        Some(PacketItem::Keep(m)) => assert_eq!(tag_of(&m), 10),
        _ => panic!("descriptor 0 names a pooled buffer"),
    }
    match rx.next_item() {
        Some(PacketItem::Keep(m)) => assert_eq!(tag_of(&m), 12),
        _ => panic!("descriptor 2 names a pooled buffer"),
    }
    // an unbacked descriptor yields nothing
    assert!(rx.next_item().is_none());
    assert!(rx.next_item().is_none());
    // the host publishes stop: the receive operator observes it
    rx.queue.recvq_ring.publish_stop();
    rx.receive();
    assert!(rx.stopped);
}

#[test]
fn simulate_queue_moves_descriptors() {
    let port_cfg = load_config().unwrap().ports.remove(0);
    let port = SimulatePort::new(&port_cfg).unwrap();
    let mut recvq = RingBuffer::new_in_heap(NUM_RXD as u64).unwrap();
    recvq.write_at_tail(&vec![11, 22, 33]);
    let sendq = RingBuffer::new_in_heap(NUM_RXD as u64).unwrap();
    let mut q = port.new_simulate_queue(0, recvq, sendq).unwrap();
    match q.recv() {
        RingPoll::Received(v) => assert_eq!(v, vec![11, 22, 33]),
        RingPoll::Stopped => panic!("ring is running"),
    }
    assert_eq!(q.stats_rx, 3);
    assert_eq!(q.send(&vec![44, 55]), 2);
    assert_eq!(q.stats_tx, 2);
    match q.sendq_ring.read_from_head(8) {
        RingPoll::Received(v) => assert_eq!(v, vec![44, 55]),
        RingPoll::Stopped => panic!("ring is running"),
    }
}

#[test]
fn stop_teardown() {
    // the host publishes the stop sentinel; the enclave's next read
    // observes it at once
    let recvq = RingBuffer::new_in_heap(8).unwrap();
    let sendq = RingBuffer::new_in_heap(8).unwrap();
    let port_cfg = load_config().unwrap().ports.remove(0);
    let port = SimulatePort::new(&port_cfg).unwrap();
    let mut q = port.new_simulate_queue(0, recvq, sendq).unwrap();
    q.recvq_ring.publish_stop();
    let mut iterations = 0;
    loop {
        iterations += 1;
        match q.recv() {
            RingPoll::Stopped => break,
            RingPoll::Received(_) => {}
        }
        assert!(iterations < 4, "the consumer must terminate promptly");
    }
    assert_eq!(iterations, 1);
}

#[test]
fn forwarder_step_moves_both_directions() {
    let recvq = RingBuffer::new_in_heap(4).unwrap();
    let mut sendq = RingBuffer::new_in_heap(4).unwrap();
    sendq.write_at_tail(&vec![91, 92]);
    let mut fwd = HostForwarder::new(recvq, sendq);
    let (accepted, to_nic) = fwd.step(&vec![1, 2, 3, 4, 5, 6], 8);
    // the receive ring takes what fits; the rest stays with the caller
    assert_eq!(accepted, 4);
    assert_eq!(to_nic, vec![91, 92]);
    assert_eq!(fwd.pkt_count_from_nic, 4);
    assert_eq!(fwd.pkt_count_from_enclave, 2);
    assert_eq!(fwd.pull_count, 1);
    fwd.publish_stop();
    match fwd.recvq.read_from_head(1) {
        RingPoll::Stopped => {}
        RingPoll::Received(_) => panic!("stop must be visible"),
    }
}

#[test]
fn rendezvous_line_parses() {
    assert_eq!(
        parse_rendezvous_line(&b"12345 67890\n".to_vec()),
        Some((12345, 67890))
    );
    assert_eq!(parse_rendezvous_line(&b"7 8".to_vec()), Some((7, 8)));
    assert_eq!(parse_rendezvous_line(&b"12345\n".to_vec()), None);
    assert_eq!(parse_rendezvous_line(&b" 5\n".to_vec()), None);
    assert_eq!(parse_rendezvous_line(&b"5 \n".to_vec()), None);
    assert_eq!(parse_rendezvous_line(&b"5 x7\n".to_vec()), None);
    assert_eq!(
        parse_rendezvous_line(&b"99999999999999999999999 1\n".to_vec()),
        None
    );
}

#[test]
fn initialize_system_builds_queues() {
    let config = load_config().unwrap();
    let ctx = initialize_system(&config).unwrap();
    assert_eq!(ctx.ports.len(), 1);
    assert_eq!(ctx.rx_queues.len(), 1);
    assert_eq!(ctx.active_cores, vec![0]);
    let rt = Runtime::init(&config).unwrap();
    assert_eq!(rt.context.ports.len(), 1);
}

#[test]
fn context_run_drives_installed_pipelines() {
    let config = load_config().unwrap();
    let ctx = initialize_system(&config).unwrap();
    let sched = ctx.run(
        |queues, mut s: StandaloneScheduler<CountingTask>| {
            assert_eq!(queues.len(), 1);
            s.add_task(CountingTask { id: 0, log: Vec::new() }).unwrap();
            s
        },
        3,
    );
    assert_eq!(sched.npkts, 3);
}

#[test]
fn simulate_port_stats() {
    let port_cfg = load_config().unwrap().ports.remove(0);
    let port = SimulatePort::new(&port_cfg).unwrap();
    let mut recvq = RingBuffer::new_in_heap(8).unwrap();
    recvq.write_at_tail(&vec![5, 6]);
    let sendq = RingBuffer::new_in_heap(8).unwrap();
    let mut q = port.new_simulate_queue(0, recvq, sendq).unwrap();
    assert_eq!(port.stats(&q), (0, 0));
    q.recv();
    q.send(&vec![7, 8, 9]);
    // the port's statistics are the totals its queue pair moved
    assert_eq!(port.stats(&q), (2, 3));
}
