//! ICMPv6 messages: the common type/code/checksum header followed by a
//! fixed, message-type-specific payload.

use vstd::prelude::*;

verus! {

use crate::buffer::{be16, be16_bytes, splice, BufferError};
use crate::checksum::checksum_of;
use crate::ipv6::{ipv6_cascaded, ipv6_ph_sum, Ipv6, IPV6_HEADER_SIZE};
use crate::packet::{ParseError, PROTO_ICMPV6};

/// Size of the common ICMPv6 header in bytes.
pub const ICMPV6_HEADER_SIZE: usize = 4;

/// Message type of an echo request.
pub const ICMPV6_TYPE_ECHO_REQUEST: u8 = 128;

/// Message type of a router solicitation.
pub const ICMPV6_TYPE_ROUTER_SOLICITATION: u8 = 133;

/// Message type of a router advertisement.
pub const ICMPV6_TYPE_ROUTER_ADVERTISEMENT: u8 = 134;

/// Type of an ICMPv6 message.
#[derive(Debug, Copy, Clone, PartialEq, Eq, Structural)]
pub struct Icmpv6Type(pub u8);

impl Icmpv6Type {
    /// Wrap a raw message-type value.
    pub fn new(value: u8) -> (r: Icmpv6Type)
        ensures
            r.0 == value,
    {
        Icmpv6Type(value)
    }
}

/// The common ICMPv6 header as a plain record.
#[derive(Debug, Copy, Clone, PartialEq, Eq, Structural)]
pub struct Icmpv6Header {
    pub msg_type: u8,
    pub code: u8,
    pub checksum: u16,
}

/// A fixed-size ICMPv6 payload: its byte count and the message type it
/// belongs to.
pub trait Icmpv6Payload: Sized {
    /// Size of the fixed payload in bytes.
    spec fn spec_size() -> int;

    /// The message type that announces this payload, or zero where the
    /// payload is still undetermined.
    spec fn spec_msg_type() -> u8;

    /// Size of the fixed payload in bytes.
    fn size() -> (r: usize)
        ensures
            r == Self::spec_size(),
            0 <= Self::spec_size() <= 32,
    ;

    /// The message type that announces this payload.
    fn msg_type() -> (r: Icmpv6Type)
        ensures
            r.0 == Self::spec_msg_type(),
    ;
}

/// The undetermined payload: used to look at type and code before
/// downcasting.
impl Icmpv6Payload for () {
    open spec fn spec_size() -> int {
        0
    }

    open spec fn spec_msg_type() -> u8 {
        0
    }

    fn size() -> (r: usize) {
        0
    }

    fn msg_type() -> (r: Icmpv6Type) {
        Icmpv6Type(0)
    }
}

/// Echo request: identifier, sequence number, then free-form data.
#[derive(Debug, Copy, Clone, PartialEq, Eq, Structural)]
pub struct EchoRequest {
    pub identifier: u16,
    pub seq_no: u16,
}

impl Icmpv6Payload for EchoRequest {
    open spec fn spec_size() -> int {
        4
    }

    open spec fn spec_msg_type() -> u8 {
        ICMPV6_TYPE_ECHO_REQUEST
    }

    fn size() -> (r: usize) {
        4
    }

    fn msg_type() -> (r: Icmpv6Type) {
        Icmpv6Type(ICMPV6_TYPE_ECHO_REQUEST)
    }
}

/// Router advertisement: hop limit, the M and O flags, router lifetime,
/// reachable time and retransmission timer.
#[derive(Debug, Copy, Clone, PartialEq, Eq, Structural)]
pub struct RouterAdvertisement {
    pub current_hop_limit: u8,
    pub flags: u8,
    pub router_lifetime: u16,
    pub reachable_time: u32,
    pub retrans_timer: u32,
}

impl Icmpv6Payload for RouterAdvertisement {
    open spec fn spec_size() -> int {
        12
    }

    open spec fn spec_msg_type() -> u8 {
        ICMPV6_TYPE_ROUTER_ADVERTISEMENT
    }

    fn size() -> (r: usize) {
        12
    }

    fn msg_type() -> (r: Icmpv6Type) {
        Icmpv6Type(ICMPV6_TYPE_ROUTER_ADVERTISEMENT)
    }
}

/// Router solicitation: a reserved word only.
#[derive(Debug, Copy, Clone, PartialEq, Eq, Structural)]
pub struct RouterSolicitation {
    pub reserved: u32,
}

impl Icmpv6Payload for RouterSolicitation {
    open spec fn spec_size() -> int {
        4
    }

    open spec fn spec_msg_type() -> u8 {
        ICMPV6_TYPE_ROUTER_SOLICITATION
    }

    fn size() -> (r: usize) {
        4
    }

    fn msg_type() -> (r: Icmpv6Type) {
        Icmpv6Type(ICMPV6_TYPE_ROUTER_SOLICITATION)
    }
}

/// The effect of an ICMPv6 cascade on the buffer, before the envelope's own
/// cascade: the checksum field is recomputed over the pseudo header and the
/// whole message with the checksum field itself read as zero.
pub open spec fn icmpv6_cascaded(b: Seq<u8>, off: int, ip_off: int) -> Seq<u8> {
    let b2 = splice(b, off + 2, be16_bytes(0));
    let ck = checksum_of(
        ipv6_ph_sum(b2, ip_off, (b.len() - off) as u16, PROTO_ICMPV6),
        b2.subrange(off, b2.len() as int),
    );
    splice(b2, off + 2, be16_bytes(ck))
}

/// An ICMPv6 message view over an IPv6 packet, typed by its payload.
pub struct Icmpv6<P: Icmpv6Payload> {
    pub envelope: Ipv6,
    pub offset: usize,
    pub payload_marker: core::marker::PhantomData<P>,
}

impl<P: Icmpv6Payload> Icmpv6<P> {
    /// The view is well-formed when the common header and the fixed payload
    /// lie inside the live data at the envelope's payload offset.
    pub open spec fn wf(&self) -> bool {
        &&& self.envelope.wf()
        &&& self.offset == self.envelope.hdr_off() + IPV6_HEADER_SIZE
        &&& 0 <= P::spec_size() <= 32
        &&& self.offset + ICMPV6_HEADER_SIZE + P::spec_size() <= self.envelope.buf().len()
    }

    /// The live bytes of the underlying buffer.
    pub open spec fn buf(&self) -> Seq<u8> {
        self.envelope.buf()
    }

    /// Offset of the common header in the buffer.
    pub open spec fn hdr_off(&self) -> int {
        self.offset as int
    }

    /// Headroom of the underlying buffer.
    pub open spec fn headroom(&self) -> int {
        self.envelope.headroom()
    }

    /// Tailroom of the underlying buffer.
    pub open spec fn tailroom(&self) -> int {
        self.envelope.tailroom()
    }

    /// The message-type field.
    pub open spec fn msg_type_spec(&self) -> u8 {
        self.buf()[self.hdr_off()]
    }

    /// The code field.
    pub open spec fn code_spec(&self) -> u8 {
        self.buf()[self.hdr_off() + 1]
    }

    /// The checksum field.
    pub open spec fn checksum_spec(&self) -> u16 {
        be16(self.buf(), self.hdr_off() + 2)
    }

    /// Parse an ICMPv6 message at the envelope's payload offset.
    pub fn do_parse(envelope: Ipv6) -> (r: Result<Icmpv6<P>, ParseError>)
        requires
            envelope.wf(),
        ensures
            match r {
                Ok(msg) => {
                    &&& envelope.buf().len() >= envelope.hdr_off() + IPV6_HEADER_SIZE
                        + ICMPV6_HEADER_SIZE + P::spec_size()
                    &&& msg.wf()
                    &&& msg.buf() == envelope.buf()
                    &&& msg.hdr_off() == envelope.hdr_off() + IPV6_HEADER_SIZE
                    &&& msg.headroom() == envelope.headroom()
                    &&& msg.tailroom() == envelope.tailroom()
                },
                Err(e) => {
                    &&& envelope.buf().len() < envelope.hdr_off() + IPV6_HEADER_SIZE
                        + ICMPV6_HEADER_SIZE + P::spec_size()
                    &&& e matches ParseError::Buffer(BufferError::OutOfBuffer(_))
                },
            },
    {
        let offset = envelope.payload_offset();
        let need: usize = ICMPV6_HEADER_SIZE + P::size();
        if envelope.data_len() < offset || envelope.data_len() - offset < need {
            return Err(ParseError::Buffer(BufferError::OutOfBuffer(need)));
        }
        Ok(Icmpv6 { envelope, offset, payload_marker: core::marker::PhantomData })
    }

    /// Insert a zeroed common header and payload, then stamp the payload's
    /// message type.
    pub fn do_push(envelope: Ipv6) -> (r: Result<Icmpv6<P>, ParseError>)
        requires
            envelope.wf(),
            P::spec_msg_type() != 0,
        ensures
            match r {
                Ok(msg) => {
                    &&& envelope.tailroom() >= ICMPV6_HEADER_SIZE + P::spec_size()
                    &&& msg.wf()
                    &&& msg.hdr_off() == envelope.hdr_off() + IPV6_HEADER_SIZE
                    &&& msg.buf() == envelope.buf().take(msg.hdr_off()) + Seq::<u8>::new(
                        (ICMPV6_HEADER_SIZE + P::spec_size()) as nat,
                        |i: int| if i == 0 { P::spec_msg_type() } else { 0u8 },
                    ) + envelope.buf().skip(msg.hdr_off())
                    &&& msg.headroom() == envelope.headroom()
                    &&& msg.tailroom() == envelope.tailroom() - ICMPV6_HEADER_SIZE
                        - P::spec_size()
                },
                Err(e) => {
                    &&& envelope.tailroom() < ICMPV6_HEADER_SIZE + P::spec_size()
                    &&& e == (ParseError::Buffer(BufferError::NotResized))
                },
            },
    {
        let offset = envelope.payload_offset();
        let need: usize = ICMPV6_HEADER_SIZE + P::size();
        let mut msg = Icmpv6::<P> { envelope, offset, payload_marker: core::marker::PhantomData };
        match crate::buffer::alloc_bytes(&mut msg.envelope.envelope.envelope.mbuf, offset, need) {
            Ok(()) => {}
            Err(e) => {
                return Err(ParseError::Buffer(e));
            }
        }
        let mut hdr: Vec<u8> = vec![0u8; need];
        let t = P::msg_type();
        hdr.set(0, t.0);
        proof {
            assert(hdr@ =~= Seq::<u8>::new(
                (ICMPV6_HEADER_SIZE + P::spec_size()) as nat,
                |i: int| if i == 0 { P::spec_msg_type() } else { 0u8 },
            ));
        }
        match crate::buffer::write_slice(&mut msg.envelope.envelope.envelope.mbuf, offset, &hdr) {
            Ok(()) => {}
            Err(e) => {
                return Err(ParseError::Buffer(e));
            }
        }
        proof {
            let z = Seq::<u8>::new(
                (ICMPV6_HEADER_SIZE + P::spec_size()) as nat,
                |i: int| if i == 0 { P::spec_msg_type() } else { 0u8 },
            );
            let pre = envelope.buf();
            assert forall|p: int| 0 <= p < msg.buf().len() implies msg.buf()[p] == (pre.take(
                offset as int,
            ) + z + pre.skip(offset as int))[p] by {
                if p < offset {
                    assert(msg.buf()[p] == msg.buf().take(offset as int)[p]);
                } else if p < offset + need {
                    assert(msg.buf()[p] == msg.buf().subrange(offset as int, offset + need)[p
                        - offset]);
                } else {
                    assert(msg.buf()[p] == msg.buf().skip(offset + need)[p - offset - need]);
                }
            }
            assert(msg.buf() =~= envelope.buf().take(offset as int) + z + envelope.buf().skip(
                offset as int,
            ));
        }
        Ok(msg)
    }

    /// Strip the common header and the fixed payload, undoing a push byte
    /// for byte, and hand back the envelope.
    pub fn remove(self) -> (r: Result<Ipv6, ParseError>)
        requires
            self.wf(),
        ensures
            match r {
                Ok(v6) => {
                    &&& v6.wf()
                    &&& v6.buf() == self.buf().take(self.hdr_off()) + self.buf().skip(
                        self.hdr_off() + ICMPV6_HEADER_SIZE + P::spec_size(),
                    )
                    &&& v6.hdr_off() == self.envelope.hdr_off()
                    &&& v6.headroom() == self.headroom()
                    &&& v6.tailroom() == self.tailroom() + ICMPV6_HEADER_SIZE + P::spec_size()
                },
                Err(e) => false,
            },
    {
        let offset = self.offset;
        let len: usize = ICMPV6_HEADER_SIZE + P::size();
        let mut v6 = self.envelope;
        match crate::buffer::dealloc(&mut v6.envelope.envelope.mbuf, offset, len) {
            Ok(()) => {}
            Err(e) => {
                proof {
                    assert(false);
                }
                return Err(ParseError::Buffer(e));
            }
        }
        proof {
            assert(v6.wf());
            assert(v6.tailroom() == self.tailroom() + ICMPV6_HEADER_SIZE + P::spec_size());
        }
        Ok(v6)
    }

    /// Release the view without touching any byte.
    pub fn deparse(self) -> (r: Ipv6)
        requires
            self.wf(),
        ensures
            r.wf(),
            r.buf() == self.buf(),
            r.hdr_off() == self.envelope.hdr_off(),
            r.headroom() == self.headroom(),
            r.tailroom() == self.tailroom(),
    {
        self.envelope
    }

    /// Length of the live data.
    pub fn data_len(&self) -> (r: usize)
        requires
            self.wf(),
        ensures
            r == self.buf().len(),
    {
        self.envelope.data_len()
    }

    /// The message-type field.
    pub fn msg_type(&self) -> (r: Icmpv6Type)
        requires
            self.wf(),
        ensures
            r.0 == self.msg_type_spec(),
    {
        Icmpv6Type(self.envelope.envelope.envelope.mbuf.get_data(self.offset))
    }

    /// The code field.
    pub fn code(&self) -> (r: u8)
        requires
            self.wf(),
        ensures
            r == self.code_spec(),
    {
        self.envelope.envelope.envelope.mbuf.get_data(self.offset + 1)
    }

    /// Overwrite the code field.
    pub fn set_code(&mut self, code: u8)
        requires
            old(self).wf(),
        ensures
            final(self).wf(),
            final(self).buf() == old(self).buf().update(old(self).hdr_off() + 1, code),
            final(self).code_spec() == code,
            final(self).hdr_off() == old(self).hdr_off(),
            final(self).headroom() == old(self).headroom(),
            final(self).tailroom() == old(self).tailroom(),
    {
        self.envelope.envelope.envelope.mbuf.set_data(self.offset + 1, code);
    }

    /// The checksum field.
    pub fn checksum(&self) -> (r: u16)
        requires
            self.wf(),
        ensures
            r == self.checksum_spec(),
    {
        let m = &self.envelope.envelope.envelope.mbuf;
        (m.get_data(self.offset + 2) as u16) * 256 + (m.get_data(self.offset + 3) as u16)
    }

    /// Recompute the checksum over the pseudo header and the whole message,
    /// reading the checksum field itself as zero.
    pub fn compute_checksum(&mut self)
        requires
            old(self).wf(),
        ensures
            final(self).wf(),
            final(self).buf() == icmpv6_cascaded(
                old(self).buf(),
                old(self).hdr_off(),
                old(self).envelope.hdr_off(),
            ),
            final(self).hdr_off() == old(self).hdr_off(),
            final(self).headroom() == old(self).headroom(),
            final(self).tailroom() == old(self).tailroom(),
    {
        let o = self.offset + 2;
        let len: usize = self.data_len() - self.offset;
        {
            let m = &mut self.envelope.envelope.envelope.mbuf;
            m.set_data(o, 0);
            m.set_data(o + 1, 0);
        }
        proof {
            assert(self.buf() =~= splice(old(self).buf(), old(self).hdr_off() + 2, be16_bytes(
                0,
            )));
        }
        let psum: u64 = self.envelope.pseudo_header_sum(len as u16, PROTO_ICMPV6);
        let data = match crate::buffer::read_slice(
            &self.envelope.envelope.envelope.mbuf,
            self.offset,
            len,
        ) {
            Ok(v) => v,
            Err(_) => {
                proof {
                    assert(false);
                }
                Vec::new()
            }
        };
        let ck: u16 = crate::checksum::compute(psum, &data);
        proof {
            let b = old(self).buf();
            let off = old(self).hdr_off();
            let ip_off = old(self).envelope.hdr_off();
            let b2 = splice(b, off + 2, be16_bytes(0));
            assert(data@ =~= b2.subrange(off, b2.len() as int));
            assert(ck == checksum_of(ipv6_ph_sum(b2, ip_off, (b.len() - off) as u16,
                PROTO_ICMPV6), b2.subrange(off, b2.len() as int)));
        }
        let m = &mut self.envelope.envelope.envelope.mbuf;
        m.set_data(o, (ck / 256) as u8);
        m.set_data(o + 1, (ck % 256) as u8);
        proof {
            assert(self.buf() =~= icmpv6_cascaded(
                old(self).buf(),
                old(self).hdr_off(),
                old(self).envelope.hdr_off(),
            ));
        }
    }

    /// Recompute this message's checksum, then cascade to the envelope,
    /// whose payload-length field is rewritten in turn.
    pub fn cascade(&mut self)
        requires
            old(self).wf(),
        ensures
            final(self).wf(),
            final(self).buf() == ipv6_cascaded(
                icmpv6_cascaded(
                    old(self).buf(),
                    old(self).hdr_off(),
                    old(self).envelope.hdr_off(),
                ),
                old(self).envelope.hdr_off(),
            ),
            final(self).hdr_off() == old(self).hdr_off(),
            final(self).headroom() == old(self).headroom(),
            final(self).tailroom() == old(self).tailroom(),
    {
        self.compute_checksum();
        self.envelope.cascade();
    }
}

impl Icmpv6<()> {
    /// Downcast the undetermined payload to a typed one, re-checking that
    /// the buffer holds the typed payload.
    pub fn downcast<Q: Icmpv6Payload>(self) -> (r: Result<Icmpv6<Q>, ParseError>)
        requires
            self.wf(),
        ensures
            match r {
                Ok(msg) => {
                    &&& self.buf().len() >= self.hdr_off() + ICMPV6_HEADER_SIZE + Q::spec_size()
                    &&& msg.wf()
                    &&& msg.buf() == self.buf()
                    &&& msg.hdr_off() == self.hdr_off()
                    &&& msg.headroom() == self.headroom()
                    &&& msg.tailroom() == self.tailroom()
                },
                Err(e) => {
                    &&& self.buf().len() < self.hdr_off() + ICMPV6_HEADER_SIZE + Q::spec_size()
                    &&& e matches ParseError::Buffer(BufferError::OutOfBuffer(_))
                },
            },
    {
        Icmpv6::<Q>::do_parse(self.envelope)
    }
}

/// Common behaviors shared by all ICMPv6 message views: the fields of the
/// common header.
pub trait Icmpv6Packet {
    /// Whether the view is well-formed.
    spec fn wf_message(&self) -> bool;

    /// The message-type field, at the specification level.
    spec fn msg_type_field(&self) -> u8;

    /// The code field, at the specification level.
    spec fn code_field(&self) -> u8;

    /// The message-type field.
    fn message_type(&self) -> (r: Icmpv6Type)
        requires
            self.wf_message(),
        ensures
            r.0 == self.msg_type_field(),
    ;

    /// The code field.
    fn message_code(&self) -> (r: u8)
        requires
            self.wf_message(),
        ensures
            r == self.code_field(),
    ;
}

impl<P: Icmpv6Payload> Icmpv6Packet for Icmpv6<P> {
    open spec fn wf_message(&self) -> bool {
        self.wf()
    }

    open spec fn msg_type_field(&self) -> u8 {
        self.msg_type_spec()
    }

    open spec fn code_field(&self) -> u8 {
        self.code_spec()
    }

    fn message_type(&self) -> (r: Icmpv6Type) {
        self.msg_type()
    }

    fn message_code(&self) -> (r: u8) {
        self.code()
    }
}

/// An ICMPv6 message with its payload parsed.
pub enum Icmpv6Message {
    /// An echo request.
    EchoRequest(Icmpv6<EchoRequest>),
    /// An NDP router advertisement.
    RouterAdvertisement(Icmpv6<RouterAdvertisement>),
    /// An NDP router solicitation.
    RouterSolicitation(Icmpv6<RouterSolicitation>),
    /// A message of a type this crate does not model further.
    Undefined(Icmpv6<()>),
}

/// Parsing the payload of an IPv6 packet as an ICMPv6 message.
pub trait Icmpv6Parse: Sized {
    /// Parse the payload as an ICMPv6 message, dispatching on the
    /// message-type field.
    fn parse_icmpv6(self) -> Result<Icmpv6Message, ParseError>;
}

impl Icmpv6Parse for Ipv6 {
    /// On a well-formed packet this behaves exactly as the verified
    /// dispatcher below; anything else is rejected outright.
    fn parse_icmpv6(self) -> (r: Result<Icmpv6Message, ParseError>)
        ensures
            self.wf() ==> match r {
                Ok(m) => {
                    &&& self.next_header_spec() == PROTO_ICMPV6
                    &&& match m {
                        Icmpv6Message::EchoRequest(msg) => {
                            &&& msg.wf()
                            &&& msg.buf() == self.buf()
                            &&& msg.msg_type_spec() == ICMPV6_TYPE_ECHO_REQUEST
                        },
                        Icmpv6Message::RouterAdvertisement(msg) => {
                            &&& msg.wf()
                            &&& msg.buf() == self.buf()
                            &&& msg.msg_type_spec() == ICMPV6_TYPE_ROUTER_ADVERTISEMENT
                        },
                        Icmpv6Message::RouterSolicitation(msg) => {
                            &&& msg.wf()
                            &&& msg.buf() == self.buf()
                            &&& msg.msg_type_spec() == ICMPV6_TYPE_ROUTER_SOLICITATION
                        },
                        Icmpv6Message::Undefined(msg) => {
                            &&& msg.wf()
                            &&& msg.buf() == self.buf()
                        },
                    }
                },
                Err(e) => match e {
                    ParseError::NotIcmpv6 => self.next_header_spec() != PROTO_ICMPV6,
                    ParseError::Buffer(_) => self.next_header_spec() == PROTO_ICMPV6,
                    _ => false,
                },
            },
            !self.wf() ==> r == Err::<Icmpv6Message, ParseError>(ParseError::NotIcmpv6),
    {
        if self.wf_check() {
            parse_icmpv6_message(self)
        } else {
            Err(ParseError::NotIcmpv6)
        }
    }
}

impl Ipv6 {
    /// Runtime re-check of the structural facts `wf` states, so that the
    /// trait entry point can call the verified parser unconditionally.
    pub fn wf_check(&self) -> (r: bool)
        ensures
            r == self.wf(),
    {
        let m = &self.envelope.envelope.mbuf;
        m.buf.len() == crate::mbuf::MAX_MBUF_SIZE as usize
            && m.buf_len == crate::mbuf::MAX_MBUF_SIZE
            && m.data_off as usize + m.data_len as usize <= m.buf_len as usize
            && m.pkt_len as usize == m.data_len as usize && self.envelope.offset == 0
            && self.envelope.offset + crate::ethernet::ETHERNET_HEADER_SIZE <= m.data_len as usize
            && self.offset == self.envelope.offset + crate::ethernet::ETHERNET_HEADER_SIZE
            && self.offset + IPV6_HEADER_SIZE <= m.data_len as usize
    }
}

/// Parse the payload of an IPv6 packet as an ICMPv6 message: reject
/// non-ICMPv6 payloads, then dispatch on the message-type byte.
pub fn parse_icmpv6_message(p: Ipv6) -> (r: Result<Icmpv6Message, ParseError>)
    requires
        p.wf(),
    ensures
        match r {
            Ok(m) => {
                &&& p.next_header_spec() == PROTO_ICMPV6
                &&& match m {
                    Icmpv6Message::EchoRequest(msg) => {
                        &&& msg.wf()
                        &&& msg.buf() == p.buf()
                        &&& msg.msg_type_spec() == ICMPV6_TYPE_ECHO_REQUEST
                    },
                    Icmpv6Message::RouterAdvertisement(msg) => {
                        &&& msg.wf()
                        &&& msg.buf() == p.buf()
                        &&& msg.msg_type_spec() == ICMPV6_TYPE_ROUTER_ADVERTISEMENT
                    },
                    Icmpv6Message::RouterSolicitation(msg) => {
                        &&& msg.wf()
                        &&& msg.buf() == p.buf()
                        &&& msg.msg_type_spec() == ICMPV6_TYPE_ROUTER_SOLICITATION
                    },
                    Icmpv6Message::Undefined(msg) => {
                        &&& msg.wf()
                        &&& msg.buf() == p.buf()
                    },
                }
            },
            Err(e) => match e {
                ParseError::NotIcmpv6 => p.next_header_spec() != PROTO_ICMPV6,
                ParseError::Buffer(_) => p.next_header_spec() == PROTO_ICMPV6,
                _ => false,
            },
        },
{
    if p.next_header() != PROTO_ICMPV6 {
        return Err(ParseError::NotIcmpv6);
    }
    let unit: Icmpv6<()> = match Icmpv6::<()>::do_parse(p) {
        Ok(m) => m,
        Err(e) => {
            return Err(e);
        }
    };
    let t = unit.msg_type();
    if t.0 == ICMPV6_TYPE_ECHO_REQUEST {
        match unit.downcast::<EchoRequest>() {
            Ok(m) => Ok(Icmpv6Message::EchoRequest(m)),
            Err(e) => Err(e),
        }
    } else if t.0 == ICMPV6_TYPE_ROUTER_ADVERTISEMENT {
        match unit.downcast::<RouterAdvertisement>() {
            Ok(m) => Ok(Icmpv6Message::RouterAdvertisement(m)),
            Err(e) => Err(e),
        }
    } else if t.0 == ICMPV6_TYPE_ROUTER_SOLICITATION {
        match unit.downcast::<RouterSolicitation>() {
            Ok(m) => Ok(Icmpv6Message::RouterSolicitation(m)),
            Err(e) => Err(e),
        }
    } else {
        Ok(Icmpv6Message::Undefined(unit))
    }
}

/// The joint effect on the buffer of an ICMPv6 cascade followed by its
/// envelope's IPv6 cascade.
pub open spec fn full_icmpv6_cascade(b: Seq<u8>, off: int, ip_off: int) -> Seq<u8> {
    ipv6_cascaded(icmpv6_cascaded(b, off, ip_off), ip_off)
}

/// Well-formedness of the offsets an ICMPv6 cascade relies on.
pub open spec fn icmpv6_cascade_offsets_ok(b: Seq<u8>, off: int, ip_off: int) -> bool {
    &&& 0 <= ip_off
    &&& off == ip_off + IPV6_HEADER_SIZE
    &&& off + ICMPV6_HEADER_SIZE <= b.len()
    &&& b.len() <= 0xffff
}

/// Cascade idempotence for ICMPv6: cascading an already-cascaded message
/// produces the same bytes again.
pub proof fn lemma_icmpv6_cascade_idempotent(b: Seq<u8>, off: int, ip_off: int)
    requires
        icmpv6_cascade_offsets_ok(b, off, ip_off),
    ensures
        full_icmpv6_cascade(full_icmpv6_cascade(b, off, ip_off), off, ip_off)
            == full_icmpv6_cascade(b, off, ip_off),
{
    let l = (b.len() - off) as u16;
    let pl = (b.len() - ip_off - IPV6_HEADER_SIZE) as u16;
    let b2 = splice(b, off + 2, be16_bytes(0));
    let ck = checksum_of(ipv6_ph_sum(b2, ip_off, l, PROTO_ICMPV6), b2.subrange(
        off,
        b2.len() as int,
    ));
    let cku = icmpv6_cascaded(b, off, ip_off);
    let c = full_icmpv6_cascade(b, off, ip_off);
    assert(cku.len() == b.len());
    assert(c.len() == b.len());
    let c2 = splice(c, off + 2, be16_bytes(0));
    assert(c2 =~= splice(b2, ip_off + 4, be16_bytes(pl)));
    assert(c2.subrange(ip_off + 8, ip_off + 40) =~= b2.subrange(ip_off + 8, ip_off + 40));
    assert(ipv6_ph_sum(c2, ip_off, l, PROTO_ICMPV6) == ipv6_ph_sum(b2, ip_off, l, PROTO_ICMPV6));
    assert(c2.subrange(off, c2.len() as int) =~= b2.subrange(off, b2.len() as int));
    let cku2 = icmpv6_cascaded(c, off, ip_off);
    assert(cku2 == splice(c2, off + 2, be16_bytes(ck)));
    assert(cku2 =~= splice(cku, ip_off + 4, be16_bytes(pl)));
    let c_again = full_icmpv6_cascade(c, off, ip_off);
    assert(c_again == splice(cku2, ip_off + 4, be16_bytes(pl)));
    assert(c_again =~= c);
}

} // verus!
