//! IPv6 headers: version, traffic class, flow label, payload length, next
//! header, hop limit and the two 128-bit addresses.

use vstd::prelude::*;

verus! {

use crate::buffer::{be16, be16_bytes, splice, BufferError};
use crate::checksum::sum16;
use crate::ethernet::{Ethernet, ETHERNET_HEADER_SIZE};
use crate::packet::{Ipv6Address, ParseError};

/// Size of the fixed IPv6 header in bytes.
pub const IPV6_HEADER_SIZE: usize = 40;

/// Common behaviors shared by IPv6 and its extension headers.
pub trait Ipv6Packet {

}

/// The bytes of a freshly pushed IPv6 header: version 6, everything else
/// zero.
pub open spec fn ipv6_default_bytes() -> Seq<u8> {
    Seq::<u8>::new(IPV6_HEADER_SIZE as nat, |i: int| if i == 0 { 0x60u8 } else { 0u8 })
}

/// The pseudo-header contribution of an IPv6 header at `off`: the two
/// addresses, the upper-layer packet length, and the protocol number.
pub open spec fn ipv6_ph_sum(b: Seq<u8>, off: int, plen: u16, proto: u8) -> int {
    sum16(b.subrange(off + 8, off + 40), 0) + plen + proto
}

/// The effect of an IPv6 cascade on the buffer: the payload-length field is
/// rewritten to count everything after the fixed header.
pub open spec fn ipv6_cascaded(b: Seq<u8>, off: int) -> Seq<u8> {
    splice(b, off + 4, be16_bytes((b.len() - off - IPV6_HEADER_SIZE) as u16))
}

/// An IPv6 header view over an Ethernet frame.
pub struct Ipv6 {
    pub envelope: Ethernet,
    pub offset: usize,
}

impl Ipv6 {
    /// The view is well-formed when the whole header lies inside the live
    /// data at the frame's payload offset.
    pub open spec fn wf(&self) -> bool {
        &&& self.envelope.wf()
        &&& self.offset == self.envelope.hdr_off() + ETHERNET_HEADER_SIZE
        &&& self.offset + IPV6_HEADER_SIZE <= self.envelope.buf().len()
    }

    /// The live bytes of the underlying buffer.
    pub open spec fn buf(&self) -> Seq<u8> {
        self.envelope.buf()
    }

    /// Offset of the IPv6 header in the buffer.
    pub open spec fn hdr_off(&self) -> int {
        self.offset as int
    }

    /// Headroom of the underlying buffer.
    pub open spec fn headroom(&self) -> int {
        self.envelope.headroom()
    }

    /// Tailroom of the underlying buffer.
    pub open spec fn tailroom(&self) -> int {
        self.envelope.tailroom()
    }

    /// The protocol version field; 6 on any well-formed IPv6 packet.
    pub open spec fn version_spec(&self) -> u8 {
        self.buf()[self.hdr_off()] / 16
    }

    /// The differentiated-services code point.
    pub open spec fn dscp_spec(&self) -> u8 {
        ((self.buf()[self.hdr_off()] % 16) * 4 + self.buf()[self.hdr_off() + 1] / 64) as u8
    }

    /// The explicit-congestion-notification bits.
    pub open spec fn ecn_spec(&self) -> u8 {
        (self.buf()[self.hdr_off() + 1] / 16) % 4
    }

    /// The 20-bit flow label.
    pub open spec fn flow_label_spec(&self) -> u32 {
        ((self.buf()[self.hdr_off() + 1] % 16) as u32 * 0x10000 + self.buf()[self.hdr_off()
            + 2] as u32 * 0x100 + self.buf()[self.hdr_off() + 3] as u32) as u32
    }

    /// The payload-length field.
    pub open spec fn payload_length_spec(&self) -> u16 {
        be16(self.buf(), self.hdr_off() + 4)
    }

    /// The next-header protocol number.
    pub open spec fn next_header_spec(&self) -> u8 {
        self.buf()[self.hdr_off() + 6]
    }

    /// The hop-limit field.
    pub open spec fn hop_limit_spec(&self) -> u8 {
        self.buf()[self.hdr_off() + 7]
    }

    /// The sixteen source-address bytes.
    pub open spec fn src_bytes(&self) -> Seq<u8> {
        self.buf().subrange(self.hdr_off() + 8, self.hdr_off() + 24)
    }

    /// The sixteen destination-address bytes.
    pub open spec fn dst_bytes(&self) -> Seq<u8> {
        self.buf().subrange(self.hdr_off() + 24, self.hdr_off() + 40)
    }

    /// Parse an IPv6 header at the frame's payload offset.
    pub fn do_parse(envelope: Ethernet) -> (r: Result<Ipv6, ParseError>)
        requires
            envelope.wf(),
        ensures
            match r {
                Ok(v6) => {
                    &&& envelope.buf().len() >= envelope.hdr_off() + ETHERNET_HEADER_SIZE
                        + IPV6_HEADER_SIZE
                    &&& v6.wf()
                    &&& v6.buf() == envelope.buf()
                    &&& v6.hdr_off() == envelope.hdr_off() + ETHERNET_HEADER_SIZE
                    &&& v6.headroom() == envelope.headroom()
                    &&& v6.tailroom() == envelope.tailroom()
                },
                Err(e) => {
                    &&& envelope.buf().len() < envelope.hdr_off() + ETHERNET_HEADER_SIZE
                        + IPV6_HEADER_SIZE
                    &&& e == (ParseError::Buffer(BufferError::OutOfBuffer(IPV6_HEADER_SIZE)))
                },
            },
    {
        let offset = envelope.payload_offset();
        if envelope.data_len() < offset || envelope.data_len() - offset < IPV6_HEADER_SIZE {
            return Err(ParseError::Buffer(BufferError::OutOfBuffer(IPV6_HEADER_SIZE)));
        }
        Ok(Ipv6 { envelope, offset })
    }

    /// Insert a default IPv6 header (version 6, all other fields zero) at
    /// the frame's payload offset.
    pub fn do_push(envelope: Ethernet) -> (r: Result<Ipv6, ParseError>)
        requires
            envelope.wf(),
        ensures
            match r {
                Ok(v6) => {
                    &&& envelope.tailroom() >= IPV6_HEADER_SIZE
                    &&& v6.wf()
                    &&& v6.hdr_off() == envelope.hdr_off() + ETHERNET_HEADER_SIZE
                    &&& v6.buf() == envelope.buf().take(v6.hdr_off()) + ipv6_default_bytes()
                        + envelope.buf().skip(v6.hdr_off())
                    &&& v6.headroom() == envelope.headroom()
                    &&& v6.tailroom() == envelope.tailroom() - IPV6_HEADER_SIZE
                },
                Err(e) => {
                    &&& envelope.tailroom() < IPV6_HEADER_SIZE
                    &&& e == (ParseError::Buffer(BufferError::NotResized))
                },
            },
    {
        let offset = envelope.payload_offset();
        let mut v6 = Ipv6 { envelope, offset };
        match crate::buffer::alloc_bytes(&mut v6.envelope.envelope.mbuf, offset, IPV6_HEADER_SIZE) {
            Ok(()) => {}
            Err(e) => {
                return Err(ParseError::Buffer(e));
            }
        }
        let mut hdr: Vec<u8> = vec![0u8; IPV6_HEADER_SIZE];
        hdr.set(0, 0x60);
        proof {
            assert(hdr@ =~= ipv6_default_bytes());
        }
        match crate::buffer::write_slice(&mut v6.envelope.envelope.mbuf, offset, &hdr) {
            Ok(()) => {}
            Err(e) => {
                return Err(ParseError::Buffer(e));
            }
        }
        proof {
            let z = ipv6_default_bytes();
            let pre = envelope.buf();
            assert forall|p: int| 0 <= p < v6.buf().len() implies v6.buf()[p] == (pre.take(
                offset as int,
            ) + z + pre.skip(offset as int))[p] by {
                if p < offset {
                    assert(v6.buf()[p] == v6.buf().take(offset as int)[p]);
                } else if p < offset + IPV6_HEADER_SIZE {
                    assert(v6.buf()[p] == v6.buf().subrange(
                        offset as int,
                        offset + IPV6_HEADER_SIZE,
                    )[p - offset]);
                } else {
                    assert(v6.buf()[p] == v6.buf().skip(offset + IPV6_HEADER_SIZE)[p - offset
                        - IPV6_HEADER_SIZE]);
                }
            }
            assert(v6.buf() =~= envelope.buf().take(offset as int) + ipv6_default_bytes()
                + envelope.buf().skip(offset as int));
        }
        Ok(v6)
    }

    /// Strip the IPv6 header, undoing a push, and hand back the frame.
    pub fn remove(self) -> (r: Result<Ethernet, ParseError>)
        requires
            self.wf(),
        ensures
            match r {
                Ok(eth) => {
                    &&& eth.wf()
                    &&& eth.buf() == self.buf().take(self.hdr_off()) + self.buf().skip(
                        self.hdr_off() + IPV6_HEADER_SIZE,
                    )
                    &&& eth.hdr_off() == self.envelope.hdr_off()
                    &&& eth.headroom() == self.headroom()
                    &&& eth.tailroom() == self.tailroom() + IPV6_HEADER_SIZE
                },
                Err(e) => false,
            },
    {
        let offset = self.offset;
        let mut eth = self.envelope;
        match crate::buffer::dealloc(&mut eth.envelope.mbuf, offset, IPV6_HEADER_SIZE) {
            Ok(()) => {}
            Err(e) => {
                proof {
                    assert(false);
                }
                return Err(ParseError::Buffer(e));
            }
        }
        proof {
            assert(eth.wf());
            assert(eth.buf() == self.buf().take(self.hdr_off()) + self.buf().skip(
                self.hdr_off() + IPV6_HEADER_SIZE,
            ));
            assert(eth.hdr_off() == self.envelope.hdr_off());
            assert(eth.headroom() == self.headroom());
            assert(eth.tailroom() == self.tailroom() + IPV6_HEADER_SIZE);
        }
        Ok(eth)
    }

    /// Release the view without touching any byte.
    pub fn deparse(self) -> (r: Ethernet)
        requires
            self.wf(),
        ensures
            r.wf(),
            r.buf() == self.buf(),
            r.hdr_off() == self.envelope.hdr_off(),
            r.headroom() == self.headroom(),
            r.tailroom() == self.tailroom(),
    {
        self.envelope
    }

    /// Recompute the lengths of this header and the enclosing ones: the
    /// payload-length field becomes the byte count after the fixed header.
    pub fn cascade(&mut self)
        requires
            old(self).wf(),
        ensures
            final(self).wf(),
            final(self).buf() == ipv6_cascaded(old(self).buf(), old(self).hdr_off()),
            final(self).hdr_off() == old(self).hdr_off(),
            final(self).headroom() == old(self).headroom(),
            final(self).tailroom() == old(self).tailroom(),
    {
        let plen: usize = self.data_len() - self.offset - IPV6_HEADER_SIZE;
        self.set_payload_length(plen as u16);
    }

    /// Size of the fixed IPv6 header.
    pub fn header_len(&self) -> (r: usize)
        ensures
            r == IPV6_HEADER_SIZE,
    {
        IPV6_HEADER_SIZE
    }

    /// Offset where the payload after this header starts.
    pub fn payload_offset(&self) -> (r: usize)
        requires
            self.wf(),
        ensures
            r == self.hdr_off() + IPV6_HEADER_SIZE,
    {
        self.offset + IPV6_HEADER_SIZE
    }

    /// Length of the live data.
    pub fn data_len(&self) -> (r: usize)
        requires
            self.wf(),
        ensures
            r == self.buf().len(),
    {
        self.envelope.data_len()
    }

    /// The version field.
    pub fn version(&self) -> (r: u8)
        requires
            self.wf(),
        ensures
            r == self.version_spec(),
    {
        self.envelope.envelope.mbuf.get_data(self.offset) / 16
    }

    /// The differentiated-services code point.
    pub fn dscp(&self) -> (r: u8)
        requires
            self.wf(),
        ensures
            r == self.dscp_spec(),
    {
        let b0 = self.envelope.envelope.mbuf.get_data(self.offset);
        let b1 = self.envelope.envelope.mbuf.get_data(self.offset + 1);
        (b0 % 16) * 4 + b1 / 64
    }

    /// The explicit-congestion-notification bits.
    pub fn ecn(&self) -> (r: u8)
        requires
            self.wf(),
        ensures
            r == self.ecn_spec(),
    {
        let b1 = self.envelope.envelope.mbuf.get_data(self.offset + 1);
        (b1 / 16) % 4
    }

    /// Overwrite the differentiated-services code point; values are taken
    /// modulo its six bits.  Version, ECN, flow label and every byte
    /// outside the first two header bytes stay.
    pub fn set_dscp(&mut self, dscp: u8)
        requires
            old(self).wf(),
        ensures
            final(self).wf(),
            final(self).dscp_spec() == dscp % 64,
            final(self).version_spec() == old(self).version_spec(),
            final(self).ecn_spec() == old(self).ecn_spec(),
            final(self).flow_label_spec() == old(self).flow_label_spec(),
            final(self).buf().len() == old(self).buf().len(),
            forall|p: int|
                0 <= p < old(self).buf().len() && !(old(self).hdr_off() <= p < old(self).hdr_off()
                    + 2) ==> final(self).buf()[p] == #[trigger] old(self).buf()[p],
            final(self).hdr_off() == old(self).hdr_off(),
            final(self).headroom() == old(self).headroom(),
            final(self).tailroom() == old(self).tailroom(),
    {
        let o = self.offset;
        let m = &mut self.envelope.envelope.mbuf;
        let b0 = m.get_data(o);
        let b1 = m.get_data(o + 1);
        let d: u8 = dscp % 64;
        let nb0: u8 = (b0 & 0xf0) | (d >> 2);
        let nb1: u8 = (d << 6) | (b1 & 0x3f);
        m.set_data(o, nb0);
        m.set_data(o + 1, nb1);
        proof {
            assert((nb0 % 16) * 4 + nb1 / 64 == d && nb0 / 16 == b0 / 16 && nb1 / 16 % 4 == b1
                / 16 % 4 && nb1 % 16 == b1 % 16) by (bit_vector)
                requires
                    nb0 == (b0 & 0xf0) | (d >> 2),
                    nb1 == (d << 6) | (b1 & 0x3f),
                    d < 64,
            ;
        }
    }

    /// Overwrite the explicit-congestion-notification bits; values are
    /// taken modulo two bits.  Version, DSCP, flow label and every byte
    /// outside the second header byte stay.
    pub fn set_ecn(&mut self, ecn: u8)
        requires
            old(self).wf(),
        ensures
            final(self).wf(),
            final(self).ecn_spec() == ecn % 4,
            final(self).version_spec() == old(self).version_spec(),
            final(self).dscp_spec() == old(self).dscp_spec(),
            final(self).flow_label_spec() == old(self).flow_label_spec(),
            final(self).buf().len() == old(self).buf().len(),
            forall|p: int|
                0 <= p < old(self).buf().len() && p != old(self).hdr_off() + 1
                    ==> final(self).buf()[p] == #[trigger] old(self).buf()[p],
            final(self).hdr_off() == old(self).hdr_off(),
            final(self).headroom() == old(self).headroom(),
            final(self).tailroom() == old(self).tailroom(),
    {
        let o = self.offset;
        let m = &mut self.envelope.envelope.mbuf;
        let b1 = m.get_data(o + 1);
        let e: u8 = ecn % 4;
        let nb1: u8 = (b1 & 0xcf) | (e << 4);
        m.set_data(o + 1, nb1);
        proof {
            assert(nb1 / 16 % 4 == e && nb1 / 64 == b1 / 64 && nb1 % 16 == b1 % 16) by (
            bit_vector)
                requires
                    nb1 == (b1 & 0xcf) | (e << 4),
                    e < 4,
            ;
        }
    }

    /// Overwrite the 20-bit flow label; values are taken modulo twenty
    /// bits.  Version, DSCP, ECN and every byte outside header bytes one
    /// to three stay.
    pub fn set_flow_label(&mut self, flow_label: u32)
        requires
            old(self).wf(),
        ensures
            final(self).wf(),
            final(self).flow_label_spec() == flow_label % 0x100000,
            final(self).version_spec() == old(self).version_spec(),
            final(self).dscp_spec() == old(self).dscp_spec(),
            final(self).ecn_spec() == old(self).ecn_spec(),
            final(self).buf().len() == old(self).buf().len(),
            forall|p: int|
                0 <= p < old(self).buf().len() && !(old(self).hdr_off() + 1 <= p
                    < old(self).hdr_off() + 4) ==> final(self).buf()[p] == #[trigger] old(
                    self,
                ).buf()[p],
            final(self).hdr_off() == old(self).hdr_off(),
            final(self).headroom() == old(self).headroom(),
            final(self).tailroom() == old(self).tailroom(),
    {
        let o = self.offset;
        let m = &mut self.envelope.envelope.mbuf;
        let b1 = m.get_data(o + 1);
        let fl: u32 = flow_label % 0x100000;
        let hi: u8 = (fl / 0x10000) as u8;
        let nb1: u8 = (b1 & 0xf0) | hi;
        let nb2: u8 = ((fl / 0x100) % 0x100) as u8;
        let nb3: u8 = (fl % 0x100) as u8;
        m.set_data(o + 1, nb1);
        m.set_data(o + 2, nb2);
        m.set_data(o + 3, nb3);
        proof {
            assert(hi < 16);
            assert(nb1 % 16 == hi && nb1 / 64 == b1 / 64 && nb1 / 16 % 4 == b1 / 16 % 4) by (
            bit_vector)
                requires
                    nb1 == (b1 & 0xf0u8) | hi,
                    hi < 16,
            ;
            assert(fl / 0x10000 * 0x10000 + fl / 0x100 % 0x100 * 0x100 + fl % 0x100 == fl) by (
            bit_vector)
                requires
                    fl < 0x100000u32,
            ;
        }
    }

    /// The 20-bit flow label.
    pub fn flow_label(&self) -> (r: u32)
        requires
            self.wf(),
        ensures
            r == self.flow_label_spec(),
    {
        let b1 = self.envelope.envelope.mbuf.get_data(self.offset + 1);
        let b2 = self.envelope.envelope.mbuf.get_data(self.offset + 2);
        let b3 = self.envelope.envelope.mbuf.get_data(self.offset + 3);
        (b1 % 16) as u32 * 0x10000 + b2 as u32 * 0x100 + b3 as u32
    }

    /// The payload-length field.
    pub fn payload_length(&self) -> (r: u16)
        requires
            self.wf(),
        ensures
            r == self.payload_length_spec(),
    {
        let m = &self.envelope.envelope.mbuf;
        (m.get_data(self.offset + 4) as u16) * 256 + (m.get_data(self.offset + 5) as u16)
    }

    /// Overwrite the payload-length field.
    fn set_payload_length(&mut self, payload_length: u16)
        requires
            old(self).wf(),
        ensures
            final(self).wf(),
            final(self).buf() == splice(
                old(self).buf(),
                old(self).hdr_off() + 4,
                be16_bytes(payload_length),
            ),
            final(self).hdr_off() == old(self).hdr_off(),
            final(self).headroom() == old(self).headroom(),
            final(self).tailroom() == old(self).tailroom(),
    {
        let o = self.offset + 4;
        let m = &mut self.envelope.envelope.mbuf;
        m.set_data(o, (payload_length / 256) as u8);
        m.set_data(o + 1, (payload_length % 256) as u8);
        proof {
            assert(self.buf() =~= splice(
                old(self).buf(),
                old(self).hdr_off() + 4,
                be16_bytes(payload_length),
            ));
        }
    }

    /// The next-header protocol number.
    pub fn next_header(&self) -> (r: u8)
        requires
            self.wf(),
        ensures
            r == self.next_header_spec(),
    {
        self.envelope.envelope.mbuf.get_data(self.offset + 6)
    }

    /// Overwrite the next-header protocol number.
    pub fn set_next_header(&mut self, next_header: u8)
        requires
            old(self).wf(),
        ensures
            final(self).wf(),
            final(self).buf() == old(self).buf().update(old(self).hdr_off() + 6, next_header),
            final(self).next_header_spec() == next_header,
            final(self).hdr_off() == old(self).hdr_off(),
            final(self).headroom() == old(self).headroom(),
            final(self).tailroom() == old(self).tailroom(),
    {
        self.envelope.envelope.mbuf.set_data(self.offset + 6, next_header);
    }

    /// The hop-limit field.
    pub fn hop_limit(&self) -> (r: u8)
        requires
            self.wf(),
        ensures
            r == self.hop_limit_spec(),
    {
        self.envelope.envelope.mbuf.get_data(self.offset + 7)
    }

    /// Overwrite the hop-limit field.
    pub fn set_hop_limit(&mut self, hop_limit: u8)
        requires
            old(self).wf(),
        ensures
            final(self).wf(),
            final(self).buf() == old(self).buf().update(old(self).hdr_off() + 7, hop_limit),
            final(self).hop_limit_spec() == hop_limit,
            final(self).hdr_off() == old(self).hdr_off(),
            final(self).headroom() == old(self).headroom(),
            final(self).tailroom() == old(self).tailroom(),
    {
        self.envelope.envelope.mbuf.set_data(self.offset + 7, hop_limit);
    }

    /// The source address.
    pub fn src(&self) -> (r: Ipv6Address)
        requires
            self.wf(),
        ensures
            r.0@ == self.src_bytes(),
    {
        let o = self.offset + 8;
        let m = &self.envelope.envelope.mbuf;
        let r = Ipv6Address(
            [
                m.get_data(o),
                m.get_data(o + 1),
                m.get_data(o + 2),
                m.get_data(o + 3),
                m.get_data(o + 4),
                m.get_data(o + 5),
                m.get_data(o + 6),
                m.get_data(o + 7),
                m.get_data(o + 8),
                m.get_data(o + 9),
                m.get_data(o + 10),
                m.get_data(o + 11),
                m.get_data(o + 12),
                m.get_data(o + 13),
                m.get_data(o + 14),
                m.get_data(o + 15),
            ],
        );
        proof {
            assert(r.0@ =~= self.src_bytes());
        }
        r
    }

    /// Overwrite the source address.
    pub fn set_src(&mut self, src: Ipv6Address)
        requires
            old(self).wf(),
        ensures
            final(self).wf(),
            final(self).buf() == splice(old(self).buf(), old(self).hdr_off() + 8, src.0@),
            final(self).hdr_off() == old(self).hdr_off(),
            final(self).headroom() == old(self).headroom(),
            final(self).tailroom() == old(self).tailroom(),
    {
        let o = self.offset + 8;
        let m = &mut self.envelope.envelope.mbuf;
        let mut i: usize = 0;
        while i < 16
            invariant
                old(self).wf(),
                i <= 16,
                m.wf(),
                m.bytes().len() == old(self).buf().len(),
                m.headroom() == old(self).headroom(),
                m.tailroom() == old(self).tailroom(),
                o == old(self).hdr_off() + 8,
                o + 16 <= m.bytes().len(),
                forall|j: int| 0 <= j < i ==> m.bytes()[o + j] == #[trigger] src.0@[j],
                forall|p: int|
                    0 <= p < m.bytes().len() && !(o <= p < o + i) ==> #[trigger] m.bytes()[p]
                        == old(self).buf()[p],
                after_borrow(self).envelope.envelope.mbuf == *final(m),
                after_borrow(self).envelope.offset == old(self).envelope.offset,
                after_borrow(self).offset == old(self).offset,
            decreases 16 - i,
        {
            m.set_data(o + i, src.0[i]);
            i = i + 1;
        }
        proof {
            assert(self.buf() =~= splice(old(self).buf(), old(self).hdr_off() + 8, src.0@));
        }
    }

    /// The destination address.
    pub fn dst(&self) -> (r: Ipv6Address)
        requires
            self.wf(),
        ensures
            r.0@ == self.dst_bytes(),
    {
        let o = self.offset + 24;
        let m = &self.envelope.envelope.mbuf;
        let r = Ipv6Address(
            [
                m.get_data(o),
                m.get_data(o + 1),
                m.get_data(o + 2),
                m.get_data(o + 3),
                m.get_data(o + 4),
                m.get_data(o + 5),
                m.get_data(o + 6),
                m.get_data(o + 7),
                m.get_data(o + 8),
                m.get_data(o + 9),
                m.get_data(o + 10),
                m.get_data(o + 11),
                m.get_data(o + 12),
                m.get_data(o + 13),
                m.get_data(o + 14),
                m.get_data(o + 15),
            ],
        );
        proof {
            assert(r.0@ =~= self.dst_bytes());
        }
        r
    }

    /// Overwrite the destination address.
    pub fn set_dst(&mut self, dst: Ipv6Address)
        requires
            old(self).wf(),
        ensures
            final(self).wf(),
            final(self).buf() == splice(old(self).buf(), old(self).hdr_off() + 24, dst.0@),
            final(self).hdr_off() == old(self).hdr_off(),
            final(self).headroom() == old(self).headroom(),
            final(self).tailroom() == old(self).tailroom(),
    {
        let o = self.offset + 24;
        let m = &mut self.envelope.envelope.mbuf;
        let mut i: usize = 0;
        while i < 16
            invariant
                old(self).wf(),
                i <= 16,
                m.wf(),
                m.bytes().len() == old(self).buf().len(),
                m.headroom() == old(self).headroom(),
                m.tailroom() == old(self).tailroom(),
                o == old(self).hdr_off() + 24,
                o + 16 <= m.bytes().len(),
                forall|j: int| 0 <= j < i ==> m.bytes()[o + j] == #[trigger] dst.0@[j],
                forall|p: int|
                    0 <= p < m.bytes().len() && !(o <= p < o + i) ==> #[trigger] m.bytes()[p]
                        == old(self).buf()[p],
                after_borrow(self).envelope.envelope.mbuf == *final(m),
                after_borrow(self).envelope.offset == old(self).envelope.offset,
                after_borrow(self).offset == old(self).offset,
            decreases 16 - i,
        {
            m.set_data(o + i, dst.0[i]);
            i = i + 1;
        }
        proof {
            assert(self.buf() =~= splice(old(self).buf(), old(self).hdr_off() + 24, dst.0@));
        }
    }

    /// The pseudo-header checksum contribution for an upper-layer protocol:
    /// both addresses, the upper-layer length, and the protocol number.
    pub fn pseudo_header_sum(&self, packet_len: u16, proto: u8) -> (r: u64)
        requires
            self.wf(),
        ensures
            r == ipv6_ph_sum(self.buf(), self.hdr_off(), packet_len, proto),
            r <= 0xffff_ffff,
    {
        let addrs = match crate::buffer::read_slice(
            &self.envelope.envelope.mbuf,
            self.offset + 8,
            32,
        ) {
            Ok(v) => v,
            Err(_) => {
                proof {
                    assert(false);
                }
                Vec::new()
            }
        };
        proof {
            crate::checksum::lemma_sum16_bounds(addrs@, 0);
        }
        crate::checksum::sum_words(&addrs) + packet_len as u64 + proto as u64
    }
}

impl Ipv6Packet for Ipv6 {

}

} // verus!
