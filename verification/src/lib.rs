//! A verified packet-processing framework built around a single-producer /
//! single-consumer descriptor ring, a packet buffer with layered protocol
//! header views, and a cooperative batch scheduler with operator pipelines.

pub mod acl;
pub mod buffer;
pub mod checksum;
pub mod config;
pub mod context;
pub mod echo_request;
pub mod ethernet;
pub mod forwarder;
pub mod icmpv6;
pub mod ipsec;
pub mod ipv6;
pub mod maglev;
pub mod mbuf;
pub mod nat_table;
pub mod ndp;
pub mod operators;
pub mod packet;
pub mod port;
pub mod ring;
pub mod router_advert;
pub mod router_solicit;
pub mod scheduler;
pub mod srh;
pub mod udp;
