//! UDP datagrams over IPv6: ports, length, and the ones-complement
//! checksum computed over the pseudo header and the whole datagram.

use vstd::prelude::*;

verus! {

use crate::buffer::{be16, be16_bytes, splice, BufferError};
use crate::checksum::checksum_of;
use crate::ipv6::{ipv6_cascaded, ipv6_ph_sum, Ipv6, IPV6_HEADER_SIZE};
use crate::packet::{Flow, IpAddress, Ipv6Address, ParseError, PROTO_UDP};

/// Size of the UDP header in bytes.
pub const UDP_HEADER_SIZE: usize = 8;

/// The UDP header as a plain record.
#[derive(Debug, Copy, Clone, PartialEq, Eq, Structural)]
pub struct UdpHeader {
    pub src_port: u16,
    pub dst_port: u16,
    pub length: u16,
    pub checksum: u16,
}

/// The checksum field a UDP cascade stores: the computed value, with zero
/// replaced by all-ones since a stored zero means "no checksum".
pub open spec fn udp_stored_checksum(ck: u16) -> u16 {
    if ck == 0 {
        0xffff
    } else {
        ck
    }
}

/// The effect of a UDP cascade on the buffer, before the envelope's own
/// cascade: the length field becomes the datagram length, and the checksum
/// field is recomputed over the pseudo header and the datagram with the
/// checksum field itself read as zero.
pub open spec fn udp_cascaded(b: Seq<u8>, off: int, ip_off: int) -> Seq<u8> {
    let l = (b.len() - off) as u16;
    let b1 = splice(b, off + 4, be16_bytes(l));
    let b2 = splice(b1, off + 6, be16_bytes(0));
    let ck = checksum_of(
        ipv6_ph_sum(b2, ip_off, l, PROTO_UDP),
        b2.subrange(off, b2.len() as int),
    );
    splice(b2, off + 6, be16_bytes(udp_stored_checksum(ck)))
}

/// The effect of recomputing the checksum field alone: the field is
/// zeroed, the ones-complement checksum is computed over the pseudo
/// header and the datagram, and the result (zero stored as all-ones) is
/// written back.
pub open spec fn udp_checksum_refreshed(b: Seq<u8>, off: int, ip_off: int) -> Seq<u8> {
    let b2 = splice(b, off + 6, be16_bytes(0));
    let ck = checksum_of(
        ipv6_ph_sum(b2, ip_off, (b.len() - off) as u16, PROTO_UDP),
        b2.subrange(off, b2.len() as int),
    );
    splice(b2, off + 6, be16_bytes(udp_stored_checksum(ck)))
}

/// A UDP datagram view over an IPv6 packet.
pub struct Udp {
    pub envelope: Ipv6,
    pub offset: usize,
}

impl Udp {
    /// The view is well-formed when the whole header lies inside the live
    /// data at the envelope's payload offset.
    pub open spec fn wf(&self) -> bool {
        &&& self.envelope.wf()
        &&& self.offset == self.envelope.hdr_off() + IPV6_HEADER_SIZE
        &&& self.offset + UDP_HEADER_SIZE <= self.envelope.buf().len()
    }

    /// The live bytes of the underlying buffer.
    pub open spec fn buf(&self) -> Seq<u8> {
        self.envelope.buf()
    }

    /// Offset of the UDP header in the buffer.
    pub open spec fn hdr_off(&self) -> int {
        self.offset as int
    }

    /// Headroom of the underlying buffer.
    pub open spec fn headroom(&self) -> int {
        self.envelope.headroom()
    }

    /// Tailroom of the underlying buffer.
    pub open spec fn tailroom(&self) -> int {
        self.envelope.tailroom()
    }

    /// The source port.
    pub open spec fn src_port_spec(&self) -> u16 {
        be16(self.buf(), self.hdr_off())
    }

    /// The destination port.
    pub open spec fn dst_port_spec(&self) -> u16 {
        be16(self.buf(), self.hdr_off() + 2)
    }

    /// The length field.
    pub open spec fn length_spec(&self) -> u16 {
        be16(self.buf(), self.hdr_off() + 4)
    }

    /// The checksum field.
    pub open spec fn checksum_spec(&self) -> u16 {
        be16(self.buf(), self.hdr_off() + 6)
    }

    /// Parse a UDP header at the envelope's payload offset.
    pub fn do_parse(envelope: Ipv6) -> (r: Result<Udp, ParseError>)
        requires
            envelope.wf(),
        ensures
            match r {
                Ok(udp) => {
                    &&& envelope.buf().len() >= envelope.hdr_off() + IPV6_HEADER_SIZE
                        + UDP_HEADER_SIZE
                    &&& udp.wf()
                    &&& udp.buf() == envelope.buf()
                    &&& udp.hdr_off() == envelope.hdr_off() + IPV6_HEADER_SIZE
                    &&& udp.headroom() == envelope.headroom()
                    &&& udp.tailroom() == envelope.tailroom()
                },
                Err(e) => {
                    &&& envelope.buf().len() < envelope.hdr_off() + IPV6_HEADER_SIZE
                        + UDP_HEADER_SIZE
                    &&& e == (ParseError::Buffer(BufferError::OutOfBuffer(UDP_HEADER_SIZE)))
                },
            },
    {
        let offset = envelope.payload_offset();
        if envelope.data_len() < offset || envelope.data_len() - offset < UDP_HEADER_SIZE {
            return Err(ParseError::Buffer(BufferError::OutOfBuffer(UDP_HEADER_SIZE)));
        }
        Ok(Udp { envelope, offset })
    }

    /// Insert a zeroed UDP header at the envelope's payload offset.
    pub fn do_push(envelope: Ipv6) -> (r: Result<Udp, ParseError>)
        requires
            envelope.wf(),
        ensures
            match r {
                Ok(udp) => {
                    &&& envelope.tailroom() >= UDP_HEADER_SIZE
                    &&& udp.wf()
                    &&& udp.hdr_off() == envelope.hdr_off() + IPV6_HEADER_SIZE
                    &&& udp.buf() == envelope.buf().take(udp.hdr_off()) + Seq::<u8>::new(
                        UDP_HEADER_SIZE as nat,
                        |i: int| 0u8,
                    ) + envelope.buf().skip(udp.hdr_off())
                    &&& udp.headroom() == envelope.headroom()
                    &&& udp.tailroom() == envelope.tailroom() - UDP_HEADER_SIZE
                },
                Err(e) => {
                    &&& envelope.tailroom() < UDP_HEADER_SIZE
                    &&& e == (ParseError::Buffer(BufferError::NotResized))
                },
            },
    {
        let offset = envelope.payload_offset();
        let mut udp = Udp { envelope, offset };
        match crate::buffer::alloc_bytes(
            &mut udp.envelope.envelope.envelope.mbuf,
            offset,
            UDP_HEADER_SIZE,
        ) {
            Ok(()) => {}
            Err(e) => {
                return Err(ParseError::Buffer(e));
            }
        }
        let zeros: Vec<u8> = vec![0u8; UDP_HEADER_SIZE];
        proof {
            assert(zeros@ =~= Seq::<u8>::new(UDP_HEADER_SIZE as nat, |i: int| 0u8));
        }
        match crate::buffer::write_slice(&mut udp.envelope.envelope.envelope.mbuf, offset, &zeros) {
            Ok(()) => {}
            Err(e) => {
                return Err(ParseError::Buffer(e));
            }
        }
        proof {
            let z = Seq::<u8>::new(UDP_HEADER_SIZE as nat, |i: int| 0u8);
            let pre = envelope.buf();
            assert forall|p: int| 0 <= p < udp.buf().len() implies udp.buf()[p] == (pre.take(
                offset as int,
            ) + z + pre.skip(offset as int))[p] by {
                if p < offset {
                    assert(udp.buf()[p] == udp.buf().take(offset as int)[p]);
                } else if p < offset + UDP_HEADER_SIZE {
                    assert(udp.buf()[p] == udp.buf().subrange(
                        offset as int,
                        offset + UDP_HEADER_SIZE,
                    )[p - offset]);
                } else {
                    assert(udp.buf()[p] == udp.buf().skip(offset + UDP_HEADER_SIZE)[p - offset
                        - UDP_HEADER_SIZE]);
                }
            }
            assert(udp.buf() =~= envelope.buf().take(offset as int) + z + envelope.buf().skip(
                offset as int,
            ));
        }
        Ok(udp)
    }

    /// Strip the UDP header, undoing a push, and hand back the envelope.
    pub fn remove(self) -> (r: Result<Ipv6, ParseError>)
        requires
            self.wf(),
        ensures
            match r {
                Ok(v6) => {
                    &&& v6.wf()
                    &&& v6.buf() == self.buf().take(self.hdr_off()) + self.buf().skip(
                        self.hdr_off() + UDP_HEADER_SIZE,
                    )
                    &&& v6.hdr_off() == self.envelope.hdr_off()
                    &&& v6.headroom() == self.headroom()
                    &&& v6.tailroom() == self.tailroom() + UDP_HEADER_SIZE
                },
                Err(e) => false,
            },
    {
        let offset = self.offset;
        let mut v6 = self.envelope;
        match crate::buffer::dealloc(&mut v6.envelope.envelope.mbuf, offset, UDP_HEADER_SIZE) {
            Ok(()) => {}
            Err(e) => {
                proof {
                    assert(false);
                }
                return Err(ParseError::Buffer(e));
            }
        }
        proof {
            assert(v6.wf());
            assert(v6.buf() == self.buf().take(self.hdr_off()) + self.buf().skip(
                self.hdr_off() + UDP_HEADER_SIZE,
            ));
            assert(v6.tailroom() == self.tailroom() + UDP_HEADER_SIZE);
        }
        Ok(v6)
    }

    /// Release the view without touching any byte.
    pub fn deparse(self) -> (r: Ipv6)
        requires
            self.wf(),
        ensures
            r.wf(),
            r.buf() == self.buf(),
            r.hdr_off() == self.envelope.hdr_off(),
            r.headroom() == self.headroom(),
            r.tailroom() == self.tailroom(),
    {
        self.envelope
    }

    /// Size of the UDP header.
    pub fn header_len(&self) -> (r: usize)
        ensures
            r == UDP_HEADER_SIZE,
    {
        UDP_HEADER_SIZE
    }

    /// Offset where the datagram's payload starts.
    pub fn payload_offset(&self) -> (r: usize)
        requires
            self.wf(),
        ensures
            r == self.hdr_off() + UDP_HEADER_SIZE,
    {
        self.offset + UDP_HEADER_SIZE
    }

    /// Length of the live data.
    pub fn data_len(&self) -> (r: usize)
        requires
            self.wf(),
        ensures
            r == self.buf().len(),
    {
        self.envelope.data_len()
    }

    /// The source port.
    pub fn src_port(&self) -> (r: u16)
        requires
            self.wf(),
        ensures
            r == self.src_port_spec(),
    {
        let m = &self.envelope.envelope.envelope.mbuf;
        (m.get_data(self.offset) as u16) * 256 + (m.get_data(self.offset + 1) as u16)
    }

    /// Overwrite the source port.
    pub fn set_src_port(&mut self, src_port: u16)
        requires
            old(self).wf(),
        ensures
            final(self).wf(),
            final(self).buf() == splice(
                old(self).buf(),
                old(self).hdr_off(),
                be16_bytes(src_port),
            ),
            final(self).src_port_spec() == src_port,
            final(self).hdr_off() == old(self).hdr_off(),
            final(self).headroom() == old(self).headroom(),
            final(self).tailroom() == old(self).tailroom(),
    {
        let o = self.offset;
        let m = &mut self.envelope.envelope.envelope.mbuf;
        m.set_data(o, (src_port / 256) as u8);
        m.set_data(o + 1, (src_port % 256) as u8);
        proof {
            assert(self.buf() =~= splice(old(self).buf(), old(self).hdr_off(), be16_bytes(
                src_port,
            )));
            assert(src_port / 256 * 256 + src_port % 256 == src_port) by {
                vstd::arithmetic::div_mod::lemma_fundamental_div_mod(src_port as int, 256);
            }
        }
    }

    /// The destination port.
    pub fn dst_port(&self) -> (r: u16)
        requires
            self.wf(),
        ensures
            r == self.dst_port_spec(),
    {
        let m = &self.envelope.envelope.envelope.mbuf;
        (m.get_data(self.offset + 2) as u16) * 256 + (m.get_data(self.offset + 3) as u16)
    }

    /// Overwrite the destination port.
    pub fn set_dst_port(&mut self, dst_port: u16)
        requires
            old(self).wf(),
        ensures
            final(self).wf(),
            final(self).buf() == splice(
                old(self).buf(),
                old(self).hdr_off() + 2,
                be16_bytes(dst_port),
            ),
            final(self).dst_port_spec() == dst_port,
            final(self).hdr_off() == old(self).hdr_off(),
            final(self).headroom() == old(self).headroom(),
            final(self).tailroom() == old(self).tailroom(),
    {
        let o = self.offset + 2;
        let m = &mut self.envelope.envelope.envelope.mbuf;
        m.set_data(o, (dst_port / 256) as u8);
        m.set_data(o + 1, (dst_port % 256) as u8);
        proof {
            assert(self.buf() =~= splice(old(self).buf(), old(self).hdr_off() + 2, be16_bytes(
                dst_port,
            )));
            assert(dst_port / 256 * 256 + dst_port % 256 == dst_port) by {
                vstd::arithmetic::div_mod::lemma_fundamental_div_mod(dst_port as int, 256);
            }
        }
    }

    /// The length field.
    pub fn length(&self) -> (r: u16)
        requires
            self.wf(),
        ensures
            r == self.length_spec(),
    {
        let m = &self.envelope.envelope.envelope.mbuf;
        (m.get_data(self.offset + 4) as u16) * 256 + (m.get_data(self.offset + 5) as u16)
    }

    /// Overwrite the length field.
    fn set_length(&mut self, length: u16)
        requires
            old(self).wf(),
        ensures
            final(self).wf(),
            final(self).buf() == splice(
                old(self).buf(),
                old(self).hdr_off() + 4,
                be16_bytes(length),
            ),
            final(self).hdr_off() == old(self).hdr_off(),
            final(self).headroom() == old(self).headroom(),
            final(self).tailroom() == old(self).tailroom(),
    {
        let o = self.offset + 4;
        let m = &mut self.envelope.envelope.envelope.mbuf;
        m.set_data(o, (length / 256) as u8);
        m.set_data(o + 1, (length % 256) as u8);
        proof {
            assert(self.buf() =~= splice(old(self).buf(), old(self).hdr_off() + 4, be16_bytes(
                length,
            )));
        }
    }

    /// The checksum field.
    pub fn checksum(&self) -> (r: u16)
        requires
            self.wf(),
        ensures
            r == self.checksum_spec(),
    {
        let m = &self.envelope.envelope.envelope.mbuf;
        (m.get_data(self.offset + 6) as u16) * 256 + (m.get_data(self.offset + 7) as u16)
    }

    /// Store a computed checksum; a computed zero is stored as all-ones,
    /// since a stored zero means "no checksum".
    fn set_checksum(&mut self, checksum: u16)
        requires
            old(self).wf(),
        ensures
            final(self).wf(),
            final(self).buf() == splice(
                old(self).buf(),
                old(self).hdr_off() + 6,
                be16_bytes(udp_stored_checksum(checksum)),
            ),
            final(self).hdr_off() == old(self).hdr_off(),
            final(self).headroom() == old(self).headroom(),
            final(self).tailroom() == old(self).tailroom(),
    {
        let v: u16 = if checksum == 0 {
            0xffff
        } else {
            checksum
        };
        let o = self.offset + 6;
        let m = &mut self.envelope.envelope.envelope.mbuf;
        m.set_data(o, (v / 256) as u8);
        m.set_data(o + 1, (v % 256) as u8);
        proof {
            assert(self.buf() =~= splice(old(self).buf(), old(self).hdr_off() + 6, be16_bytes(
                v,
            )));
        }
    }

    /// Declare "no checksum" by storing zero.
    pub fn no_checksum(&mut self)
        requires
            old(self).wf(),
        ensures
            final(self).wf(),
            final(self).buf() == splice(old(self).buf(), old(self).hdr_off() + 6, be16_bytes(0)),
            final(self).checksum_spec() == 0,
            final(self).hdr_off() == old(self).hdr_off(),
            final(self).headroom() == old(self).headroom(),
            final(self).tailroom() == old(self).tailroom(),
    {
        let o = self.offset + 6;
        let m = &mut self.envelope.envelope.envelope.mbuf;
        m.set_data(o, 0);
        m.set_data(o + 1, 0);
        proof {
            assert(self.buf() =~= splice(old(self).buf(), old(self).hdr_off() + 6, be16_bytes(
                0,
            )));
        }
    }

    /// Recompute the checksum field alone, over the pseudo header and the
    /// datagram with the checksum field read as zero.  The length field is
    /// left as stored.
    fn refresh_checksum(&mut self)
        requires
            old(self).wf(),
        ensures
            final(self).wf(),
            final(self).buf() == udp_checksum_refreshed(
                old(self).buf(),
                old(self).hdr_off(),
                old(self).envelope.hdr_off(),
            ),
            final(self).hdr_off() == old(self).hdr_off(),
            final(self).headroom() == old(self).headroom(),
            final(self).tailroom() == old(self).tailroom(),
    {
        let len: usize = self.data_len() - self.offset;
        self.no_checksum();
        let psum: u64 = self.envelope.pseudo_header_sum(len as u16, PROTO_UDP);
        let data = match crate::buffer::read_slice(
            &self.envelope.envelope.envelope.mbuf,
            self.offset,
            len,
        ) {
            Ok(v) => v,
            Err(_) => {
                proof {
                    assert(false);
                }
                Vec::new()
            }
        };
        let ck: u16 = crate::checksum::compute(psum, &data);
        proof {
            let b = old(self).buf();
            let off = old(self).hdr_off();
            let ip_off = old(self).envelope.hdr_off();
            let b2 = splice(b, off + 6, be16_bytes(0));
            assert(self.buf() =~= b2);
            assert(data@ =~= b2.subrange(off, b2.len() as int));
            assert(ck == checksum_of(
                ipv6_ph_sum(b2, ip_off, (b.len() - off) as u16, PROTO_UDP),
                b2.subrange(off, b2.len() as int),
            ));
        }
        self.set_checksum(ck);
        proof {
            assert(self.buf() =~= udp_checksum_refreshed(
                old(self).buf(),
                old(self).hdr_off(),
                old(self).envelope.hdr_off(),
            ));
        }
    }

    /// Overwrite the layer-3 source address and recompute the checksum
    /// over the changed bytes.
    pub fn set_src_ip(&mut self, src: Ipv6Address)
        requires
            old(self).wf(),
        ensures
            final(self).wf(),
            final(self).buf() == udp_checksum_refreshed(
                splice(old(self).buf(), old(self).envelope.hdr_off() + 8, src.0@),
                old(self).hdr_off(),
                old(self).envelope.hdr_off(),
            ),
            final(self).envelope.src_bytes() == src.0@,
            final(self).hdr_off() == old(self).hdr_off(),
            final(self).headroom() == old(self).headroom(),
            final(self).tailroom() == old(self).tailroom(),
    {
        self.envelope.set_src(src);
        self.refresh_checksum();
        proof {
            assert(final(self).envelope.src_bytes() =~= src.0@);
        }
    }

    /// Overwrite the layer-3 destination address and recompute the
    /// checksum over the changed bytes.
    pub fn set_dst_ip(&mut self, dst: Ipv6Address)
        requires
            old(self).wf(),
        ensures
            final(self).wf(),
            final(self).buf() == udp_checksum_refreshed(
                splice(old(self).buf(), old(self).envelope.hdr_off() + 24, dst.0@),
                old(self).hdr_off(),
                old(self).envelope.hdr_off(),
            ),
            final(self).envelope.dst_bytes() == dst.0@,
            final(self).hdr_off() == old(self).hdr_off(),
            final(self).headroom() == old(self).headroom(),
            final(self).tailroom() == old(self).tailroom(),
    {
        self.envelope.set_dst(dst);
        self.refresh_checksum();
        proof {
            assert(final(self).envelope.dst_bytes() =~= dst.0@);
        }
    }

    /// The five-tuple of the datagram.
    pub fn flow(&self) -> (r: Flow)
        requires
            self.wf(),
        ensures
            r.src_ip matches IpAddress::V6(a) && a.0@ == self.envelope.src_bytes(),
            r.dst_ip matches IpAddress::V6(a) && a.0@ == self.envelope.dst_bytes(),
            r.src_port == self.src_port_spec(),
            r.dst_port == self.dst_port_spec(),
            r.protocol == PROTO_UDP,
    {
        Flow {
            src_ip: IpAddress::V6(self.envelope.src()),
            dst_ip: IpAddress::V6(self.envelope.dst()),
            src_port: self.src_port(),
            dst_port: self.dst_port(),
            protocol: PROTO_UDP,
        }
    }

    /// Recompute this datagram's length and checksum, then cascade to the
    /// envelope, whose payload-length field is rewritten in turn.  The
    /// checksum is computed over the pseudo header and the datagram with
    /// the checksum field read as zero.
    pub fn cascade(&mut self)
        requires
            old(self).wf(),
        ensures
            final(self).wf(),
            final(self).buf() == ipv6_cascaded(
                udp_cascaded(old(self).buf(), old(self).hdr_off(), old(self).envelope.hdr_off()),
                old(self).envelope.hdr_off(),
            ),
            final(self).hdr_off() == old(self).hdr_off(),
            final(self).headroom() == old(self).headroom(),
            final(self).tailroom() == old(self).tailroom(),
    {
        let len: usize = self.data_len() - self.offset;
        self.set_length(len as u16);
        self.no_checksum();
        let psum: u64 = self.envelope.pseudo_header_sum(len as u16, PROTO_UDP);
        let data = match crate::buffer::read_slice(
            &self.envelope.envelope.envelope.mbuf,
            self.offset,
            len,
        ) {
            Ok(v) => v,
            Err(_) => {
                proof {
                    assert(false);
                }
                Vec::new()
            }
        };
        let ck: u16 = crate::checksum::compute(psum, &data);
        proof {
            let b = old(self).buf();
            let off = old(self).hdr_off();
            let ip_off = old(self).envelope.hdr_off();
            let l = (b.len() - off) as u16;
            let b1 = splice(b, off + 4, be16_bytes(l));
            let b2 = splice(b1, off + 6, be16_bytes(0));
            assert(self.buf() =~= b2);
            assert(data@ =~= b2.subrange(off, b2.len() as int));
            assert(ck == checksum_of(ipv6_ph_sum(b2, ip_off, l, PROTO_UDP), b2.subrange(
                off,
                b2.len() as int,
            )));
        }
        self.set_checksum(ck);
        proof {
            assert(self.buf() =~= udp_cascaded(
                old(self).buf(),
                old(self).hdr_off(),
                old(self).envelope.hdr_off(),
            ));
        }
        self.envelope.cascade();
    }
}

/// The joint effect on the buffer of a UDP cascade followed by its
/// envelope's IPv6 cascade.
pub open spec fn full_cascade(b: Seq<u8>, off: int, ip_off: int) -> Seq<u8> {
    ipv6_cascaded(udp_cascaded(b, off, ip_off), ip_off)
}

/// Splicing a 16-bit field with the value it already holds changes nothing.
proof fn lemma_splice_be16_same(b: Seq<u8>, o: int, v: u16)
    requires
        0 <= o,
        o + 2 <= b.len(),
        be16(b, o) == v,
    ensures
        splice(b, o, be16_bytes(v)) == b,
{
    assert(b[o] * 256 + b[o + 1] == v);
    vstd::arithmetic::div_mod::lemma_fundamental_div_mod_converse(
        v as int,
        256,
        b[o] as int,
        b[o + 1] as int,
    );
    assert((v / 256) as u8 == b[o]);
    assert((v % 256) as u8 == b[o + 1]);
    assert(splice(b, o, be16_bytes(v)) =~= b);
}

/// Well-formedness of the offsets a UDP-over-IPv6 cascade relies on: the
/// UDP header sits right after the fixed IPv6 header, the whole datagram is
/// inside the buffer, and the buffer is small enough for its lengths to fit
/// the 16-bit fields.
pub open spec fn cascade_offsets_ok(b: Seq<u8>, off: int, ip_off: int) -> bool {
    &&& 0 <= ip_off
    &&& off == ip_off + IPV6_HEADER_SIZE
    &&& off + UDP_HEADER_SIZE <= b.len()
    &&& b.len() <= 0xffff
}

/// Cascading never changes the buffer's length.
pub proof fn lemma_cascade_len(b: Seq<u8>, off: int, ip_off: int)
    requires
        cascade_offsets_ok(b, off, ip_off),
    ensures
        full_cascade(b, off, ip_off).len() == b.len(),
        udp_cascaded(b, off, ip_off).len() == b.len(),
{
    let l = (b.len() - off) as u16;
    let b1 = splice(b, off + 4, be16_bytes(l));
    let b2 = splice(b1, off + 6, be16_bytes(0));
    assert(b1.len() == b.len());
    assert(b2.len() == b.len());
}

/// Cascade idempotence: cascading an already-cascaded packet produces the
/// same bytes again.
pub proof fn lemma_cascade_idempotent(b: Seq<u8>, off: int, ip_off: int)
    requires
        cascade_offsets_ok(b, off, ip_off),
    ensures
        full_cascade(full_cascade(b, off, ip_off), off, ip_off) == full_cascade(b, off, ip_off),
{
    let l = (b.len() - off) as u16;
    let pl = (b.len() - ip_off - IPV6_HEADER_SIZE) as u16;
    let b1 = splice(b, off + 4, be16_bytes(l));
    let b2 = splice(b1, off + 6, be16_bytes(0));
    let ck = checksum_of(ipv6_ph_sum(b2, ip_off, l, PROTO_UDP), b2.subrange(off, b2.len() as int));
    let cku = udp_cascaded(b, off, ip_off);
    let c = full_cascade(b, off, ip_off);
    lemma_cascade_len(b, off, ip_off);

    // second application
    let c1 = splice(c, off + 4, be16_bytes(l));
    let c2 = splice(c1, off + 6, be16_bytes(0));
    assert(be16(c, off + 4) == l) by {
        assert(c[off + 4] == (l / 256) as u8);
        assert(c[off + 5] == (l % 256) as u8);
        vstd::arithmetic::div_mod::lemma_fundamental_div_mod(l as int, 256);
    }
    lemma_splice_be16_same(c, off + 4, l);
    assert(c1 == c);
    // zeroing the checksum of the cascaded buffer yields b2 with the IPv6
    // payload-length field rewritten
    assert(c2 =~= splice(b2, ip_off + 4, be16_bytes(pl)));
    // the pseudo header reads only the addresses, which that splice leaves
    assert(c2.subrange(ip_off + 8, ip_off + 40) =~= b2.subrange(ip_off + 8, ip_off + 40));
    assert(ipv6_ph_sum(c2, ip_off, l, PROTO_UDP) == ipv6_ph_sum(b2, ip_off, l, PROTO_UDP));
    // the datagram bytes are also untouched by that splice
    assert(c2.subrange(off, c2.len() as int) =~= b2.subrange(off, b2.len() as int));
    let ck2 = checksum_of(
        ipv6_ph_sum(c2, ip_off, l, PROTO_UDP),
        c2.subrange(off, c2.len() as int),
    );
    assert(ck2 == ck);
    let cku2 = udp_cascaded(c, off, ip_off);
    assert(cku2 == splice(c2, off + 6, be16_bytes(udp_stored_checksum(ck))));
    assert(cku2 =~= splice(cku, ip_off + 4, be16_bytes(pl)));
    let c_again = full_cascade(c, off, ip_off);
    assert(c_again == splice(cku2, ip_off + 4, be16_bytes(pl)));
    assert(c_again =~= c);
}

/// Checksum correctness: when the stored length and checksum fields already
/// hold the values a cascade would compute — in particular when nothing in
/// the payload changed since the last cascade — cascading restores the
/// buffer byte for byte, original checksum included.
pub proof fn lemma_cascade_preserves_correct(b: Seq<u8>, off: int, ip_off: int)
    requires
        cascade_offsets_ok(b, off, ip_off),
        be16(b, off + 4) == (b.len() - off) as u16,
        be16(b, ip_off + 4) == (b.len() - ip_off - IPV6_HEADER_SIZE) as u16,
        be16(b, off + 6) == udp_stored_checksum(
            checksum_of(
                ipv6_ph_sum(
                    splice(b, off + 6, be16_bytes(0)),
                    ip_off,
                    (b.len() - off) as u16,
                    PROTO_UDP,
                ),
                splice(b, off + 6, be16_bytes(0)).subrange(off, b.len() as int),
            ),
        ),
    ensures
        full_cascade(b, off, ip_off) == b,
{
    let l = (b.len() - off) as u16;
    let pl = (b.len() - ip_off - IPV6_HEADER_SIZE) as u16;
    lemma_splice_be16_same(b, off + 4, l);
    let b1 = splice(b, off + 4, be16_bytes(l));
    assert(b1 == b);
    let b0 = splice(b, off + 6, be16_bytes(0));
    let b2 = splice(b1, off + 6, be16_bytes(0));
    assert(b2 == b0);
    let ck = checksum_of(ipv6_ph_sum(b2, ip_off, l, PROTO_UDP), b2.subrange(off, b2.len() as int));
    assert(b2.len() == b.len());
    assert(be16(b, off + 6) == udp_stored_checksum(ck));
    let cku = udp_cascaded(b, off, ip_off);
    assert(cku == splice(b2, off + 6, be16_bytes(udp_stored_checksum(ck))));
    lemma_splice_be16_same(b, off + 6, udp_stored_checksum(ck));
    assert(cku =~= splice(b, off + 6, be16_bytes(udp_stored_checksum(ck))));
    assert(cku == b);
    lemma_splice_be16_same(b, ip_off + 4, pl);
    assert(full_cascade(b, off, ip_off) == splice(cku, ip_off + 4, be16_bytes(pl)));
    assert(full_cascade(b, off, ip_off) == b);
}

} // verus!
