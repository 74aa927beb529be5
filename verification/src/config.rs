//! The runtime configuration: process identity, core layout, and the port
//! list with its queue-to-core mappings and descriptor counts.

use vstd::prelude::*;

verus! {

/// Default size of the buffer pool.
pub const DEFAULT_POOL_SIZE: u32 = 2047;

/// Default size of the per-core pool cache.
pub const DEFAULT_CACHE_SIZE: u32 = 32;

/// Number of receive descriptors per queue: the receive ring's slot count.
pub const NUM_RXD: i32 = 128;

/// Number of transmit descriptors per queue: the send ring's slot count.
pub const NUM_TXD: i32 = 128;

/// Port (network device) configuration.
pub struct PortConfiguration {
    pub name: String,
    /// Core on which the receive node of each queue lives.
    pub rx_queues: Vec<i32>,
    /// Core on which the sending node of each queue lives.
    pub tx_queues: Vec<i32>,
    pub rxd: i32,
    pub txd: i32,
    pub loopback: bool,
    pub tso: bool,
    pub csum: bool,
}

impl PortConfiguration {
    /// The default port configuration: one RX and one TX queue on core 0.
    pub fn default_simulate() -> (r: PortConfiguration)
        ensures
            r.rx_queues@ == seq![0i32],
            r.tx_queues@ == seq![0i32],
            r.rxd == NUM_RXD,
            r.txd == NUM_TXD,
            !r.loopback,
            !r.tso,
            !r.csum,
    {
        let mut rx_queues: Vec<i32> = Vec::new();
        rx_queues.push(0);
        let mut tx_queues: Vec<i32> = Vec::new();
        tx_queues.push(0);
        proof {
            assert(rx_queues@ =~= seq![0i32]);
            assert(tx_queues@ =~= seq![0i32]);
        }
        PortConfiguration {
            name: String::new(),
            rx_queues,
            tx_queues,
            rxd: NUM_RXD,
            txd: NUM_TXD,
            loopback: false,
            tso: false,
            csum: false,
        }
    }
}

/// Whole-runtime configuration.
pub struct NetBricksConfiguration {
    /// Process name handed to the driver layer.
    pub name: String,
    /// Whether this process runs as a secondary driver process.
    pub secondary: bool,
    /// Core of the main thread.
    pub primary_core: i32,
    /// Cores available to the runtime.
    pub cores: Vec<i32>,
    /// Refuse to start when a queue's core is missing from `cores`.
    pub strict: bool,
    /// Ports to initialize.
    pub ports: Vec<PortConfiguration>,
    /// Buffer pool size.
    pub pool_size: u32,
    /// Per-core pool cache size.
    pub cache_size: u32,
    /// Free-form extra driver arguments.
    pub dpdk_args: Option<String>,
}

/// The built-in default configuration: one simulated port with one queue
/// pair on core 0.
pub fn load_config() -> (r: Result<NetBricksConfiguration, crate::port::PortError>)
    ensures
        match r {
            Ok(c) => {
                &&& !c.secondary
                &&& c.primary_core == 0
                &&& c.cores@ == seq![0i32]
                &&& !c.strict
                &&& c.ports@.len() == 1
                &&& c.ports@[0].rx_queues@ == seq![0i32]
                &&& c.pool_size == 512
                &&& c.cache_size == 32
            },
            Err(e) => false,
        },
{
    let mut cores: Vec<i32> = Vec::new();
    cores.push(0);
    let mut ports: Vec<PortConfiguration> = Vec::new();
    ports.push(PortConfiguration::default_simulate());
    proof {
        assert(cores@ =~= seq![0i32]);
        assert(ports@.len() == 1);
    }
    Ok(
        NetBricksConfiguration {
            name: String::new(),
            secondary: false,
            primary_core: 0,
            cores,
            strict: false,
            ports,
            pool_size: 512,
            cache_size: 32,
            dpdk_args: None,
        },
    )
}

} // verus!
