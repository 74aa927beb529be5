//! Common types of the packet parse layer.
//!
//! A packet is parsed as a chain of typed views over one buffer: the raw
//! packet is the root, and each protocol header view owns its envelope (the
//! view one layer further out).  Removing or deparsing a view hands the
//! envelope back.

use vstd::prelude::*;

verus! {

use crate::buffer::BufferError;
use crate::mbuf::MBuf;

/// Internet protocol number of TCP.
pub const PROTO_TCP: u8 = 6;

/// Internet protocol number of UDP.
pub const PROTO_UDP: u8 = 17;

/// Internet protocol number of the IPv6 routing header.
pub const PROTO_ROUTING: u8 = 43;

/// Internet protocol number of ICMPv6.
pub const PROTO_ICMPV6: u8 = 58;

/// Errors of the parse layer.
#[derive(Debug, PartialEq, Eq, Structural)]
pub enum ParseError {
    /// A buffer access failed (offset past the data, not enough bytes, or
    /// no room to resize).
    Buffer(BufferError),
    /// A segment routing header whose length does not match its segment
    /// count.
    InconsistentSegmentList,
    /// The payload is not ICMPv6.
    NotIcmpv6,
    /// An NDP option with a zero length field.
    ZeroLengthOption,
    /// An empty segment list was installed in a segment routing header.
    Segments(crate::srh::BadSegmentsError),
}

/// An IPv6 address, as its sixteen bytes in network order.
#[derive(Debug, Copy, Clone)]
pub struct Ipv6Address(pub [u8; 16]);

impl PartialEq for Ipv6Address {
    fn eq(&self, other: &Ipv6Address) -> (r: bool) {
        let a = &self.0;
        let b = &other.0;
        let mut i: usize = 0;
        let mut same = true;
        while i < 16
            invariant
                i <= 16,
                same == (a@.take(i as int) =~= b@.take(i as int)),
            decreases 16 - i,
        {
            if a[i] != b[i] {
                proof {
                    assert(a@.take(i + 1)[i as int] != b@.take(i + 1)[i as int]);
                }
                same = false;
            }
            proof {
                if same {
                    assert(a@.take(i + 1) =~= b@.take(i + 1));
                } else {
                    if a@.take(i + 1) == b@.take(i + 1) {
                        assert(a@.take(i as int) =~= b@.take(i + 1).take(i as int));
                        assert(b@.take(i as int) =~= b@.take(i + 1).take(i as int));
                    }
                }
            }
            i = i + 1;
        }
        proof {
            assert(a@.take(16) =~= a@);
            assert(b@.take(16) =~= b@);
        }
        same
    }
}

impl Eq for Ipv6Address {

}

impl vstd::std_specs::cmp::PartialEqSpecImpl for Ipv6Address {
    open spec fn obeys_eq_spec() -> bool {
        true
    }

    open spec fn eq_spec(&self, other: &Ipv6Address) -> bool {
        self.0@ == other.0@
    }
}

impl Ipv6Address {
    /// The unspecified address `::`.
    pub fn unspecified() -> (r: Ipv6Address)
        ensures
            r.0@ == Seq::<u8>::new(16, |i: int| 0u8),
    {
        let r = Ipv6Address([0u8; 16]);
        proof {
            assert(r.0@ =~= Seq::<u8>::new(16, |i: int| 0u8));
        }
        r
    }
}

/// A segment of a segment routing header is an IPv6 address.
pub type Segment = Ipv6Address;

/// A layer-3 address of either family.
#[derive(Debug, Copy, Clone)]
pub enum IpAddress {
    /// An IPv4 address as its four bytes in one big-endian word.
    V4(u32),
    /// An IPv6 address.
    V6(Ipv6Address),
}

impl PartialEq for IpAddress {
    fn eq(&self, other: &IpAddress) -> (r: bool) {
        match (self, other) {
            (IpAddress::V4(a), IpAddress::V4(b)) => a == b,
            (IpAddress::V6(a), IpAddress::V6(b)) => a == b,
            _ => false,
        }
    }
}

impl Eq for IpAddress {

}

impl vstd::std_specs::cmp::PartialEqSpecImpl for IpAddress {
    open spec fn obeys_eq_spec() -> bool {
        true
    }

    open spec fn eq_spec(&self, other: &IpAddress) -> bool {
        match (self, other) {
            (IpAddress::V4(a), IpAddress::V4(b)) => a == b,
            (IpAddress::V6(a), IpAddress::V6(b)) => a.0@ == b.0@,
            _ => false,
        }
    }
}

/// A transport-layer five-tuple.
#[derive(Debug, Copy, Clone)]
pub struct Flow {
    pub src_ip: IpAddress,
    pub dst_ip: IpAddress,
    pub src_port: u16,
    pub dst_port: u16,
    pub protocol: u8,
}

impl PartialEq for Flow {
    fn eq(&self, other: &Flow) -> (r: bool) {
        self.src_ip == other.src_ip && self.dst_ip == other.dst_ip && self.src_port
            == other.src_port && self.dst_port == other.dst_port && self.protocol
            == other.protocol
    }
}

impl Eq for Flow {

}

impl vstd::std_specs::cmp::PartialEqSpecImpl for Flow {
    open spec fn obeys_eq_spec() -> bool {
        true
    }

    open spec fn eq_spec(&self, other: &Flow) -> bool {
        &&& vstd::std_specs::cmp::PartialEqSpec::eq_spec(&self.src_ip, &other.src_ip)
        &&& vstd::std_specs::cmp::PartialEqSpec::eq_spec(&self.dst_ip, &other.dst_ip)
        &&& self.src_port == other.src_port
        &&& self.dst_port == other.dst_port
        &&& self.protocol == other.protocol
    }
}

impl Flow {
    /// Assemble a five-tuple.
    pub fn new(src_ip: IpAddress, dst_ip: IpAddress, src_port: u16, dst_port: u16, protocol: u8)
        -> (r: Flow)
        ensures
            r == (Flow { src_ip, dst_ip, src_port, dst_port, protocol }),
    {
        Flow { src_ip, dst_ip, src_port, dst_port, protocol }
    }

    /// The same five-tuple seen from the other direction.
    pub fn reverse(&self) -> (r: Flow)
        ensures
            r == (Flow {
                src_ip: self.dst_ip,
                dst_ip: self.src_ip,
                src_port: self.dst_port,
                dst_port: self.src_port,
                protocol: self.protocol,
            }),
    {
        Flow {
            src_ip: self.dst_ip,
            dst_ip: self.src_ip,
            src_port: self.dst_port,
            dst_port: self.src_port,
            protocol: self.protocol,
        }
    }
}

/// The root view: a buffer with no header parsed yet.  Its payload starts
/// at offset 0.
pub struct RawPacket {
    pub mbuf: MBuf,
}

impl RawPacket {
    /// The raw packet is well-formed when its buffer is.
    pub open spec fn wf(&self) -> bool {
        self.mbuf.wf()
    }

    /// The live bytes of the underlying buffer.
    pub open spec fn buf(&self) -> Seq<u8> {
        self.mbuf.bytes()
    }

    /// Headroom of the underlying buffer.
    pub open spec fn headroom(&self) -> int {
        self.mbuf.headroom()
    }

    /// Tailroom of the underlying buffer.
    pub open spec fn tailroom(&self) -> int {
        self.mbuf.tailroom()
    }

    /// Wrap a buffer as an unparsed packet.
    pub fn from_mbuf(mbuf: MBuf) -> (r: RawPacket)
        requires
            mbuf.wf(),
        ensures
            r.wf(),
            r.buf() == mbuf.bytes(),
            r.headroom() == mbuf.headroom(),
            r.tailroom() == mbuf.tailroom(),
    {
        RawPacket { mbuf }
    }

    /// Hand the buffer back.
    pub fn into_mbuf(self) -> (r: MBuf)
        requires
            self.wf(),
        ensures
            r.wf(),
            r.bytes() == self.buf(),
            r.headroom() == self.headroom(),
            r.tailroom() == self.tailroom(),
    {
        self.mbuf
    }

    /// The payload of the raw packet starts at its first byte.
    pub fn payload_offset(&self) -> (r: usize)
        ensures
            r == 0,
    {
        0
    }

    /// Length of the live data.
    pub fn data_len(&self) -> (r: usize)
        requires
            self.wf(),
        ensures
            r == self.buf().len(),
    {
        self.mbuf.data_len()
    }
}

/// Push/remove round trip: inserting any header's bytes at an offset and
/// then removing the same number of bytes at that offset restores the
/// buffer byte for byte.
pub proof fn lemma_push_remove_round_trip(b: Seq<u8>, off: int, header: Seq<u8>)
    requires
        0 <= off <= b.len(),
    ensures
        ({
            let pushed = b.take(off) + header + b.skip(off);
            pushed.take(off) + pushed.skip(off + header.len()) == b
        }),
{
    let pushed = b.take(off) + header + b.skip(off);
    assert(pushed.take(off) + pushed.skip(off + header.len()) =~= b);
}

} // verus!
