//! Ethernet type II frames: destination MAC, source MAC, then the 16-bit
//! EtherType identifying the payload protocol.

use vstd::prelude::*;

verus! {

use crate::buffer::{
    alloc_bytes, be16, dealloc, splice, write_slice, BufferError,
};
use crate::mbuf::MBuf;
use crate::packet::{ParseError, RawPacket};

/// Size of the Ethernet header in bytes.
pub const ETHERNET_HEADER_SIZE: usize = 14;

/// EtherType of IPv4.
pub const ETHER_TYPE_IPV4: u16 = 0x0800;

/// EtherType of IPv6.
pub const ETHER_TYPE_IPV6: u16 = 0x86DD;

/// A 48-bit MAC address.
#[derive(Debug, Copy, Clone)]
pub struct MacAddr(pub [u8; 6]);

impl PartialEq for MacAddr {
    fn eq(&self, other: &MacAddr) -> (r: bool) {
        let a = &self.0;
        let b = &other.0;
        let r = a[0] == b[0] && a[1] == b[1] && a[2] == b[2] && a[3] == b[3] && a[4] == b[4]
            && a[5] == b[5];
        proof {
            if r {
                assert(a@ =~= b@);
            }
        }
        r
    }
}

impl Eq for MacAddr {

}

impl vstd::std_specs::cmp::PartialEqSpecImpl for MacAddr {
    open spec fn obeys_eq_spec() -> bool {
        true
    }

    open spec fn eq_spec(&self, other: &MacAddr) -> bool {
        self.0@ == other.0@
    }
}

impl MacAddr {
    /// Build an address from its six bytes.
    pub fn new(a: u8, b: u8, c: u8, d: u8, e: u8, f: u8) -> (r: MacAddr)
        ensures
            r.0@ == seq![a, b, c, d, e, f],
    {
        let r = MacAddr([a, b, c, d, e, f]);
        proof {
            assert(r.0@ =~= seq![a, b, c, d, e, f]);
        }
        r
    }

    /// Build an address from the first six bytes of a slice.
    pub fn new_from_slice(slice: &[u8]) -> (r: MacAddr)
        requires
            slice@.len() >= 6,
        ensures
            r.0@ == slice@.take(6),
    {
        let r = MacAddr([slice[0], slice[1], slice[2], slice[3], slice[4], slice[5]]);
        proof {
            assert(r.0@ =~= slice@.take(6));
        }
        r
    }

    /// The six bytes the address consists of.
    pub fn octets(&self) -> (r: [u8; 6])
        ensures
            r == self.0,
    {
        self.0
    }
}

/// Error raised when a text form does not denote a MAC address.
#[derive(Debug, PartialEq, Eq, Structural)]
pub struct MacParseError;

/// The value of an ASCII hex digit, or 16 for any other byte.
pub open spec fn hex_digit_val(c: u8) -> u8 {
    if 0x30 <= c <= 0x39 {
        (c - 0x30) as u8
    } else if 0x61 <= c <= 0x66 {
        (c - 0x61 + 10) as u8
    } else if 0x41 <= c <= 0x46 {
        (c - 0x41 + 10) as u8
    } else {
        16
    }
}

/// The bytes of `s` that are not separators (`:` or `-`).
pub open spec fn strip_separators(s: Seq<u8>) -> Seq<u8> {
    s.filter(|c: u8| c != 0x3a && c != 0x2d)
}

/// Whether twelve hex digits remain once the separators are gone.
pub open spec fn mac_text_ok(s: Seq<u8>) -> bool {
    &&& strip_separators(s).len() == 12
    &&& forall|i: int|
        0 <= i < 12 ==> hex_digit_val(#[trigger] strip_separators(s)[i]) < 16
}

impl MacAddr {
    /// Parse the ASCII text of a MAC address: twelve hex digits, with `:`
    /// or `-` separators allowed anywhere.
    pub fn parse_text(s: &Vec<u8>) -> (r: Result<MacAddr, MacParseError>)
        ensures
            match r {
                Ok(mac) => {
                    &&& mac_text_ok(s@)
                    &&& forall|k: int|
                        0 <= k < 6 ==> #[trigger] mac.0@[k] == hex_digit_val(
                            strip_separators(s@)[2 * k],
                        ) * 16 + hex_digit_val(strip_separators(s@)[2 * k + 1])
                },
                Err(e) => !mac_text_ok(s@),
            },
    {
        let mut digits: Vec<u8> = Vec::new();
        let mut i: usize = 0;
        while i < s.len()
            invariant
                i <= s@.len(),
                digits@ == s@.take(i as int).filter(|c: u8| c != 0x3a && c != 0x2d),
            decreases s@.len() - i,
        {
            let c = s[i];
            proof {
                reveal(Seq::filter);
                assert(s@.take(i + 1).drop_last() =~= s@.take(i as int));
                assert(s@.take(i + 1).last() == c);
            }
            if c != 0x3a && c != 0x2d {
                digits.push(c);
            }
            i = i + 1;
        }
        proof {
            assert(s@.take(s@.len() as int) =~= s@);
        }
        if digits.len() != 12 {
            return Err(MacParseError);
        }
        let mut octets: [u8; 6] = [0; 6];
        let mut k: usize = 0;
        while k < 6
            invariant
                k <= 6,
                digits@ == strip_separators(s@),
                digits@.len() == 12,
                forall|j: int|
                    0 <= j < k ==> #[trigger] octets@[j] == hex_digit_val(digits@[2 * j]) * 16
                        + hex_digit_val(digits@[2 * j + 1]) && hex_digit_val(digits@[2 * j]) < 16
                        && hex_digit_val(digits@[2 * j + 1]) < 16,
            decreases 6 - k,
        {
            let hi = hex_digit(digits[2 * k]);
            let lo = hex_digit(digits[2 * k + 1]);
            if hi >= 16 || lo >= 16 {
                return Err(MacParseError);
            }
            octets[k] = hi * 16 + lo;
            k = k + 1;
        }
        proof {
            assert forall|i2: int| 0 <= i2 < 12 implies hex_digit_val(
                #[trigger] strip_separators(s@)[i2],
            ) < 16 by {
                let j = i2 / 2;
                vstd::arithmetic::div_mod::lemma_fundamental_div_mod(i2, 2);
                assert(0 <= j < 6);
                assert(octets@[j] == hex_digit_val(digits@[2 * j]) * 16 + hex_digit_val(
                    digits@[2 * j + 1],
                ) && hex_digit_val(digits@[2 * j]) < 16 && hex_digit_val(digits@[2 * j + 1])
                    < 16);
                assert(i2 == 2 * j || i2 == 2 * j + 1);
            }
        }
        Ok(MacAddr(octets))
    }
}

/// The value of an ASCII hex digit, or 16 for any other byte.
fn hex_digit(c: u8) -> (r: u8)
    ensures
        r == hex_digit_val(c),
{
    if c >= 0x30 && c <= 0x39 {
        c - 0x30
    } else if c >= 0x61 && c <= 0x66 {
        c - 0x61 + 10
    } else if c >= 0x41 && c <= 0x46 {
        c - 0x41 + 10
    } else {
        16
    }
}

/// The protocol type in the Ethernet payload.
#[derive(Debug, Copy, Clone, PartialEq, Eq, Structural)]
pub struct EtherType(pub u16);

impl EtherType {
    /// Wrap a raw EtherType value.
    pub fn new(value: u16) -> (r: EtherType)
        ensures
            r.0 == value,
    {
        EtherType(value)
    }
}

/// The Ethernet header as a plain record.
#[derive(Debug, Copy, Clone)]
pub struct EthernetHeader {
    pub dst: MacAddr,
    pub src: MacAddr,
    pub ether_type: u16,
}

/// An Ethernet frame view over a raw packet.
pub struct Ethernet {
    pub envelope: RawPacket,
    pub offset: usize,
}

impl Ethernet {
    /// The view is well-formed when the whole header lies inside the live
    /// data at the envelope's payload offset.
    pub open spec fn wf(&self) -> bool {
        &&& self.envelope.wf()
        &&& self.offset == 0
        &&& self.offset + ETHERNET_HEADER_SIZE <= self.envelope.buf().len()
    }

    /// The live bytes of the underlying buffer.
    pub open spec fn buf(&self) -> Seq<u8> {
        self.envelope.buf()
    }

    /// Offset of the Ethernet header in the buffer.
    pub open spec fn hdr_off(&self) -> int {
        self.offset as int
    }

    /// Headroom of the underlying buffer.
    pub open spec fn headroom(&self) -> int {
        self.envelope.headroom()
    }

    /// Tailroom of the underlying buffer.
    pub open spec fn tailroom(&self) -> int {
        self.envelope.tailroom()
    }

    /// The six destination bytes.
    pub open spec fn dst_bytes(&self) -> Seq<u8> {
        self.buf().subrange(self.hdr_off(), self.hdr_off() + 6)
    }

    /// The six source bytes.
    pub open spec fn src_bytes(&self) -> Seq<u8> {
        self.buf().subrange(self.hdr_off() + 6, self.hdr_off() + 12)
    }

    /// The EtherType field.
    pub open spec fn ether_type_spec(&self) -> u16 {
        be16(self.buf(), self.hdr_off() + 12)
    }

    /// Parse an Ethernet frame at the start of a raw packet.
    pub fn do_parse(envelope: RawPacket) -> (r: Result<Ethernet, ParseError>)
        requires
            envelope.wf(),
        ensures
            match r {
                Ok(eth) => {
                    &&& envelope.buf().len() >= ETHERNET_HEADER_SIZE
                    &&& eth.wf()
                    &&& eth.buf() == envelope.buf()
                    &&& eth.hdr_off() == 0
                    &&& eth.headroom() == envelope.headroom()
                    &&& eth.tailroom() == envelope.tailroom()
                },
                Err(e) => {
                    &&& envelope.buf().len() < ETHERNET_HEADER_SIZE
                    &&& e == (ParseError::Buffer(BufferError::OutOfBuffer(ETHERNET_HEADER_SIZE)))
                },
            },
    {
        let offset = envelope.payload_offset();
        if envelope.data_len() < offset || envelope.data_len() - offset < ETHERNET_HEADER_SIZE {
            return Err(ParseError::Buffer(BufferError::OutOfBuffer(ETHERNET_HEADER_SIZE)));
        }
        Ok(Ethernet { envelope, offset })
    }

    /// Prepend a zeroed Ethernet header to a raw packet by shifting its
    /// bytes towards the tail.
    pub fn do_push(envelope: RawPacket) -> (r: Result<Ethernet, ParseError>)
        requires
            envelope.wf(),
        ensures
            match r {
                Ok(eth) => {
                    &&& envelope.tailroom() >= ETHERNET_HEADER_SIZE
                    &&& eth.wf()
                    &&& eth.hdr_off() == 0
                    &&& eth.buf() == Seq::<u8>::new(ETHERNET_HEADER_SIZE as nat, |i: int| 0u8)
                        + envelope.buf()
                    &&& eth.headroom() == envelope.headroom()
                    &&& eth.tailroom() == envelope.tailroom() - ETHERNET_HEADER_SIZE
                },
                Err(e) => {
                    &&& envelope.tailroom() < ETHERNET_HEADER_SIZE
                    &&& e == (ParseError::Buffer(BufferError::NotResized))
                },
            },
    {
        let offset = envelope.payload_offset();
        let mut mbuf: MBuf = envelope.into_mbuf();
        match alloc_bytes(&mut mbuf, offset, ETHERNET_HEADER_SIZE) {
            Ok(()) => {}
            Err(e) => {
                return Err(ParseError::Buffer(e));
            }
        }
        let zeros: Vec<u8> = vec![0u8; ETHERNET_HEADER_SIZE];
        proof {
            assert(zeros@ =~= Seq::<u8>::new(ETHERNET_HEADER_SIZE as nat, |i: int| 0u8));
        }
        match write_slice(&mut mbuf, offset, &zeros) {
            Ok(()) => {}
            Err(e) => {
                return Err(ParseError::Buffer(e));
            }
        }
        proof {
            let z = Seq::<u8>::new(ETHERNET_HEADER_SIZE as nat, |i: int| 0u8);
            assert forall|p: int| 0 <= p < mbuf.bytes().len() implies mbuf.bytes()[p] == (z
                + envelope.buf())[p] by {
                if p < ETHERNET_HEADER_SIZE {
                    assert(mbuf.bytes()[p] == mbuf.bytes().subrange(
                        0,
                        ETHERNET_HEADER_SIZE as int,
                    )[p]);
                } else {
                    assert(mbuf.bytes()[p] == mbuf.bytes().skip(ETHERNET_HEADER_SIZE as int)[p
                        - ETHERNET_HEADER_SIZE]);
                }
            }
            assert(mbuf.bytes() =~= Seq::<u8>::new(ETHERNET_HEADER_SIZE as nat, |i: int| 0u8)
                + envelope.buf());
        }
        Ok(Ethernet { envelope: RawPacket { mbuf }, offset })
    }

    /// Strip the Ethernet header, undoing a push, and hand back the
    /// envelope.
    pub fn remove(self) -> (r: Result<RawPacket, ParseError>)
        requires
            self.wf(),
        ensures
            match r {
                Ok(raw) => {
                    &&& raw.wf()
                    &&& raw.buf() == self.buf().skip(ETHERNET_HEADER_SIZE as int)
                    &&& raw.headroom() == self.headroom()
                    &&& raw.tailroom() == self.tailroom() + ETHERNET_HEADER_SIZE
                },
                Err(e) => false,
            },
    {
        let mut mbuf: MBuf = self.envelope.into_mbuf();
        match dealloc(&mut mbuf, 0, ETHERNET_HEADER_SIZE) {
            Ok(()) => {}
            Err(e) => {
                proof {
                    assert(false);
                }
                return Err(ParseError::Buffer(e));
            }
        }
        let raw = RawPacket { mbuf };
        proof {
            assert(raw.buf() =~= self.buf().skip(ETHERNET_HEADER_SIZE as int));
        }
        Ok(raw)
    }

    /// Release the view without touching any byte.
    pub fn deparse(self) -> (r: RawPacket)
        requires
            self.wf(),
        ensures
            r.wf(),
            r.buf() == self.buf(),
            r.headroom() == self.headroom(),
            r.tailroom() == self.tailroom(),
    {
        self.envelope
    }

    /// Recompute lengths and checksums of the enclosing headers.  The raw
    /// packet has none, so nothing changes.
    pub fn cascade(&mut self)
        requires
            old(self).wf(),
        ensures
            *final(self) == *old(self),
    {
    }

    /// Size of the Ethernet header.
    pub fn header_len(&self) -> (r: usize)
        ensures
            r == ETHERNET_HEADER_SIZE,
    {
        ETHERNET_HEADER_SIZE
    }

    /// Offset where the frame's payload starts.
    pub fn payload_offset(&self) -> (r: usize)
        requires
            self.wf(),
        ensures
            r == self.hdr_off() + ETHERNET_HEADER_SIZE,
    {
        self.offset + ETHERNET_HEADER_SIZE
    }

    /// Length of the live data.
    pub fn data_len(&self) -> (r: usize)
        requires
            self.wf(),
        ensures
            r == self.buf().len(),
    {
        self.envelope.data_len()
    }

    /// The destination MAC address.
    pub fn dst(&self) -> (r: MacAddr)
        requires
            self.wf(),
        ensures
            r.0@ == self.dst_bytes(),
    {
        let o = self.offset;
        let m = &self.envelope.mbuf;
        let r = MacAddr(
            [
                m.get_data(o),
                m.get_data(o + 1),
                m.get_data(o + 2),
                m.get_data(o + 3),
                m.get_data(o + 4),
                m.get_data(o + 5),
            ],
        );
        proof {
            assert(r.0@ =~= self.dst_bytes());
        }
        r
    }

    /// The source MAC address.
    pub fn src(&self) -> (r: MacAddr)
        requires
            self.wf(),
        ensures
            r.0@ == self.src_bytes(),
    {
        let o = self.offset + 6;
        let m = &self.envelope.mbuf;
        let r = MacAddr(
            [
                m.get_data(o),
                m.get_data(o + 1),
                m.get_data(o + 2),
                m.get_data(o + 3),
                m.get_data(o + 4),
                m.get_data(o + 5),
            ],
        );
        proof {
            assert(r.0@ =~= self.src_bytes());
        }
        r
    }

    /// Overwrite the destination MAC address.
    pub fn set_dst(&mut self, dst: MacAddr)
        requires
            old(self).wf(),
        ensures
            final(self).wf(),
            final(self).buf() == splice(old(self).buf(), old(self).hdr_off(), dst.0@),
            final(self).hdr_off() == old(self).hdr_off(),
            final(self).headroom() == old(self).headroom(),
            final(self).tailroom() == old(self).tailroom(),
    {
        let o = self.offset;
        let octets = dst.octets();
        let m = &mut self.envelope.mbuf;
        m.set_data(o, octets[0]);
        m.set_data(o + 1, octets[1]);
        m.set_data(o + 2, octets[2]);
        m.set_data(o + 3, octets[3]);
        m.set_data(o + 4, octets[4]);
        m.set_data(o + 5, octets[5]);
        proof {
            assert(self.buf() =~= splice(old(self).buf(), old(self).hdr_off(), dst.0@));
        }
    }

    /// Overwrite the source MAC address.
    pub fn set_src(&mut self, src: MacAddr)
        requires
            old(self).wf(),
        ensures
            final(self).wf(),
            final(self).buf() == splice(old(self).buf(), old(self).hdr_off() + 6, src.0@),
            final(self).hdr_off() == old(self).hdr_off(),
            final(self).headroom() == old(self).headroom(),
            final(self).tailroom() == old(self).tailroom(),
    {
        let o = self.offset + 6;
        let octets = src.octets();
        let m = &mut self.envelope.mbuf;
        m.set_data(o, octets[0]);
        m.set_data(o + 1, octets[1]);
        m.set_data(o + 2, octets[2]);
        m.set_data(o + 3, octets[3]);
        m.set_data(o + 4, octets[4]);
        m.set_data(o + 5, octets[5]);
        proof {
            assert(self.buf() =~= splice(old(self).buf(), old(self).hdr_off() + 6, src.0@));
        }
    }

    /// The EtherType of the payload.
    pub fn ether_type(&self) -> (r: EtherType)
        requires
            self.wf(),
        ensures
            r.0 == self.ether_type_spec(),
    {
        let o = self.offset + 12;
        let m = &self.envelope.mbuf;
        EtherType((m.get_data(o) as u16) * 256 + (m.get_data(o + 1) as u16))
    }

    /// Overwrite the EtherType.
    pub fn set_ether_type(&mut self, ether_type: EtherType)
        requires
            old(self).wf(),
        ensures
            final(self).wf(),
            final(self).buf() == splice(
                old(self).buf(),
                old(self).hdr_off() + 12,
                seq![(ether_type.0 / 256) as u8, (ether_type.0 % 256) as u8],
            ),
            final(self).ether_type_spec() == ether_type.0,
            final(self).hdr_off() == old(self).hdr_off(),
            final(self).headroom() == old(self).headroom(),
            final(self).tailroom() == old(self).tailroom(),
    {
        let o = self.offset + 12;
        let v = ether_type.0;
        let m = &mut self.envelope.mbuf;
        m.set_data(o, (v / 256) as u8);
        m.set_data(o + 1, (v % 256) as u8);
        proof {
            assert(self.buf() =~= splice(
                old(self).buf(),
                old(self).hdr_off() + 12,
                seq![(v / 256) as u8, (v % 256) as u8],
            ));
            assert(v / 256 * 256 + v % 256 == v) by {
                vstd::arithmetic::div_mod::lemma_fundamental_div_mod(v as int, 256);
            }
        }
    }

    /// Swap the source and destination MAC addresses in place; every other
    /// byte stays.
    pub fn swap_addresses(&mut self)
        requires
            old(self).wf(),
        ensures
            final(self).wf(),
            final(self).buf().len() == old(self).buf().len(),
            final(self).dst_bytes() == old(self).src_bytes(),
            final(self).src_bytes() == old(self).dst_bytes(),
            forall|p: int|
                0 <= p < old(self).buf().len() && !(old(self).hdr_off() <= p < old(self).hdr_off()
                    + 12) ==> final(self).buf()[p] == #[trigger] old(self).buf()[p],
            final(self).hdr_off() == old(self).hdr_off(),
            final(self).headroom() == old(self).headroom(),
            final(self).tailroom() == old(self).tailroom(),
    {
        let src = self.src();
        let dst = self.dst();
        self.set_src(dst);
        self.set_dst(src);
        proof {
            assert(self.dst_bytes() =~= old(self).src_bytes());
            assert(self.src_bytes() =~= old(self).dst_bytes());
        }
    }
}

} // verus!
