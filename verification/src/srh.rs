//! The IPv6 segment routing extension header: the fixed eight bytes, then
//! a list of 128-bit segments.  The first segment holds the final
//! destination of the route.

use vstd::prelude::*;

verus! {

use crate::buffer::{be16, be16_bytes, splice, BufferError};
use crate::checksum::sum16;
use crate::ipv6::{ipv6_cascaded, Ipv6, Ipv6Packet, IPV6_HEADER_SIZE};
use crate::packet::{Ipv6Address, ParseError, Segment};

/// Size of the fixed part of the segment routing header, in bytes.
pub const SRH_FIXED_SIZE: usize = 8;

/// Size of one segment, in bytes.
pub const SEGMENT_SIZE: usize = 16;

/// Largest representable segment count: the header-extension-length byte
/// stores twice the count.
pub const SRH_MAX_SEGMENTS: usize = 127;

/// The fixed part of the segment routing header as a plain record.
#[derive(Debug, Copy, Clone, PartialEq, Eq, Structural)]
pub struct SegmentRoutingHeader {
    pub next_header: u8,
    pub hdr_ext_len: u8,
    pub routing_type: u8,
    pub segments_left: u8,
    pub last_entry: u8,
    pub flags: u8,
    pub tag: u16,
}

impl Default for SegmentRoutingHeader {
    /// The header a push writes: routing type 4, one extension unit pair,
    /// everything else zero.
    fn default() -> (r: SegmentRoutingHeader)
        ensures
            r.next_header == 0,
            r.hdr_ext_len == 2,
            r.routing_type == 4,
            r.segments_left == 0,
            r.last_entry == 0,
            r.flags == 0,
            r.tag == 0,
    {
        SegmentRoutingHeader {
            next_header: 0,
            hdr_ext_len: 2,
            routing_type: 4,
            segments_left: 0,
            last_entry: 0,
            flags: 0,
            tag: 0,
        }
    }
}

/// Error raised when a segment list of length zero is installed.
#[derive(Debug, PartialEq, Eq, Structural)]
pub struct BadSegmentsError;

/// The bytes of a freshly pushed segment routing header: routing type 4,
/// one 8-octet extension unit pair holding a single unspecified segment.
pub open spec fn srh_default_bytes() -> Seq<u8> {
    Seq::<u8>::new(
        (SRH_FIXED_SIZE + SEGMENT_SIZE) as nat,
        |i: int| if i == 1 { 2u8 } else if i == 2 { 4u8 } else { 0u8 },
    )
}

/// A segment routing header view over an IPv6 packet.
pub struct SegmentRouting {
    pub envelope: Ipv6,
    pub offset: usize,
    pub seg_count: usize,
}

impl SegmentRouting {
    /// The view is well-formed when the fixed header and the segment list
    /// lie inside the live data, and the length fields agree with the
    /// segment count.
    pub open spec fn wf(&self) -> bool {
        &&& self.envelope.wf()
        &&& self.offset == self.envelope.hdr_off() + IPV6_HEADER_SIZE
        &&& 1 <= self.seg_count <= SRH_MAX_SEGMENTS
        &&& self.offset + SRH_FIXED_SIZE + SEGMENT_SIZE * self.seg_count
            <= self.envelope.buf().len()
        &&& self.buf()[self.hdr_off() + 1] == 2 * self.seg_count
        &&& self.buf()[self.hdr_off() + 4] == self.seg_count - 1
    }

    /// The live bytes of the underlying buffer.
    pub open spec fn buf(&self) -> Seq<u8> {
        self.envelope.buf()
    }

    /// Offset of the fixed header in the buffer.
    pub open spec fn hdr_off(&self) -> int {
        self.offset as int
    }

    /// Headroom of the underlying buffer.
    pub open spec fn headroom(&self) -> int {
        self.envelope.headroom()
    }

    /// Tailroom of the underlying buffer.
    pub open spec fn tailroom(&self) -> int {
        self.envelope.tailroom()
    }

    /// The next-header protocol number.
    pub open spec fn next_header_spec(&self) -> u8 {
        self.buf()[self.hdr_off()]
    }

    /// The header-extension-length byte: the header's size in 8-octet
    /// units, not counting the first 8 octets.
    pub open spec fn hdr_ext_len_spec(&self) -> u8 {
        self.buf()[self.hdr_off() + 1]
    }

    /// The routing-type byte.
    pub open spec fn routing_type_spec(&self) -> u8 {
        self.buf()[self.hdr_off() + 2]
    }

    /// The segments-left byte.
    pub open spec fn segments_left_spec(&self) -> u8 {
        self.buf()[self.hdr_off() + 3]
    }

    /// The last-entry byte: the index of the last segment.
    pub open spec fn last_entry_spec(&self) -> u8 {
        self.buf()[self.hdr_off() + 4]
    }

    /// The flags byte.
    pub open spec fn flags_spec(&self) -> u8 {
        self.buf()[self.hdr_off() + 5]
    }

    /// The tag field.
    pub open spec fn tag_spec(&self) -> u16 {
        be16(self.buf(), self.hdr_off() + 6)
    }

    /// The sixteen bytes of segment `i`.
    pub open spec fn segment_bytes(&self, i: int) -> Seq<u8> {
        self.buf().subrange(
            self.hdr_off() + SRH_FIXED_SIZE + SEGMENT_SIZE * i,
            self.hdr_off() + SRH_FIXED_SIZE + SEGMENT_SIZE * i + SEGMENT_SIZE,
        )
    }

    /// Parse a segment routing header at the envelope's payload offset.
    /// The header-extension length must be twice the segment count implied
    /// by the last-entry byte, else the header is inconsistent.
    pub fn do_parse(envelope: Ipv6) -> (r: Result<SegmentRouting, ParseError>)
        requires
            envelope.wf(),
        ensures
            match r {
                Ok(srh) => {
                    &&& srh.wf()
                    &&& srh.buf() == envelope.buf()
                    &&& srh.hdr_off() == envelope.hdr_off() + IPV6_HEADER_SIZE
                    &&& srh.seg_count == srh.last_entry_spec() + 1
                    &&& srh.headroom() == envelope.headroom()
                    &&& srh.tailroom() == envelope.tailroom()
                },
                Err(e) => {
                    let off = envelope.hdr_off() + IPV6_HEADER_SIZE;
                    match e {
                        ParseError::Buffer(be) => {
                            ||| (envelope.buf().len() < off + SRH_FIXED_SIZE && be
                                == (BufferError::OutOfBuffer(SRH_FIXED_SIZE)))
                            ||| {
                                let segs = envelope.buf()[off + 4] + 1;
                                &&& envelope.buf().len() >= off + SRH_FIXED_SIZE
                                &&& envelope.buf()[off + 1] == 2 * segs
                                &&& envelope.buf().len() < off + SRH_FIXED_SIZE + SEGMENT_SIZE
                                    * segs
                                &&& be == (BufferError::OutOfBuffer(
                                    (SEGMENT_SIZE * segs) as usize,
                                ))
                            }
                        },
                        ParseError::InconsistentSegmentList => {
                            &&& envelope.buf().len() >= off + SRH_FIXED_SIZE
                            &&& {
                                let ext = envelope.buf()[off + 1];
                                let segs = envelope.buf()[off + 4] + 1;
                                ext == 0 || 2 * segs != ext
                            }
                        },
                        _ => false,
                    }
                },
            },
    {
        let offset = envelope.payload_offset();
        if envelope.data_len() < offset || envelope.data_len() - offset < SRH_FIXED_SIZE {
            return Err(ParseError::Buffer(BufferError::OutOfBuffer(SRH_FIXED_SIZE)));
        }
        let m = &envelope.envelope.envelope.mbuf;
        let hdr_ext_len: u8 = m.get_data(offset + 1);
        let segments_len: usize = m.get_data(offset + 4) as usize + 1;
        if !(hdr_ext_len != 0 && 2 * segments_len == hdr_ext_len as usize) {
            return Err(ParseError::InconsistentSegmentList);
        }
        if envelope.data_len() - offset - SRH_FIXED_SIZE < SEGMENT_SIZE * segments_len {
            return Err(ParseError::Buffer(BufferError::OutOfBuffer(SEGMENT_SIZE * segments_len)));
        }
        Ok(SegmentRouting { envelope, offset, seg_count: segments_len })
    }

    /// Insert a default segment routing header at the envelope's payload
    /// offset: routing type 4 with a single unspecified segment.
    pub fn do_push(envelope: Ipv6) -> (r: Result<SegmentRouting, ParseError>)
        requires
            envelope.wf(),
        ensures
            match r {
                Ok(srh) => {
                    &&& envelope.tailroom() >= SRH_FIXED_SIZE + SEGMENT_SIZE
                    &&& srh.wf()
                    &&& srh.seg_count == 1
                    &&& srh.hdr_off() == envelope.hdr_off() + IPV6_HEADER_SIZE
                    &&& srh.buf() == envelope.buf().take(srh.hdr_off()) + srh_default_bytes()
                        + envelope.buf().skip(srh.hdr_off())
                    &&& srh.headroom() == envelope.headroom()
                    &&& srh.tailroom() == envelope.tailroom() - SRH_FIXED_SIZE - SEGMENT_SIZE
                },
                Err(e) => {
                    &&& envelope.tailroom() < SRH_FIXED_SIZE + SEGMENT_SIZE
                    &&& e == (ParseError::Buffer(BufferError::NotResized))
                },
            },
    {
        let offset = envelope.payload_offset();
        let need: usize = SRH_FIXED_SIZE + SEGMENT_SIZE;
        let mut srh = SegmentRouting { envelope, offset, seg_count: 1 };
        match crate::buffer::alloc_bytes(&mut srh.envelope.envelope.envelope.mbuf, offset, need) {
            Ok(()) => {}
            Err(e) => {
                return Err(ParseError::Buffer(e));
            }
        }
        let mut hdr: Vec<u8> = vec![0u8; need];
        hdr.set(1, 2);
        hdr.set(2, 4);
        proof {
            assert(hdr@ =~= srh_default_bytes());
        }
        match crate::buffer::write_slice(&mut srh.envelope.envelope.envelope.mbuf, offset, &hdr) {
            Ok(()) => {}
            Err(e) => {
                return Err(ParseError::Buffer(e));
            }
        }
        proof {
            let z = srh_default_bytes();
            let pre = envelope.buf();
            assert forall|p: int| 0 <= p < srh.buf().len() implies srh.buf()[p] == (pre.take(
                offset as int,
            ) + z + pre.skip(offset as int))[p] by {
                if p < offset {
                    assert(srh.buf()[p] == srh.buf().take(offset as int)[p]);
                } else if p < offset + need {
                    assert(srh.buf()[p] == srh.buf().subrange(offset as int, offset + need)[p
                        - offset]);
                } else {
                    assert(srh.buf()[p] == srh.buf().skip(offset + need)[p - offset - need]);
                }
            }
            assert(srh.buf() =~= envelope.buf().take(offset as int) + z + envelope.buf().skip(
                offset as int,
            ));
        }
        Ok(srh)
    }

    /// Release the view without touching any byte.
    pub fn deparse(self) -> (r: Ipv6)
        requires
            self.wf(),
        ensures
            r.wf(),
            r.buf() == self.buf(),
            r.hdr_off() == self.envelope.hdr_off(),
            r.headroom() == self.headroom(),
            r.tailroom() == self.tailroom(),
    {
        self.envelope
    }

    /// Strip the whole header, segments included, and hand back the
    /// envelope.
    pub fn remove(self) -> (r: Result<Ipv6, ParseError>)
        requires
            self.wf(),
        ensures
            match r {
                Ok(v6) => {
                    &&& v6.wf()
                    &&& v6.buf() == self.buf().take(self.hdr_off()) + self.buf().skip(
                        self.hdr_off() + SRH_FIXED_SIZE + SEGMENT_SIZE * self.seg_count,
                    )
                    &&& v6.hdr_off() == self.envelope.hdr_off()
                    &&& v6.headroom() == self.headroom()
                },
                Err(e) => false,
            },
    {
        let offset = self.offset;
        let len: usize = SRH_FIXED_SIZE + SEGMENT_SIZE * self.seg_count;
        let mut v6 = self.envelope;
        match crate::buffer::dealloc(&mut v6.envelope.envelope.mbuf, offset, len) {
            Ok(()) => {}
            Err(e) => {
                proof {
                    assert(false);
                }
                return Err(ParseError::Buffer(e));
            }
        }
        proof {
            assert(v6.wf());
        }
        Ok(v6)
    }

    /// Recompute lengths and checksums of the enclosing headers; the
    /// segment routing header itself carries no checksum.
    pub fn cascade(&mut self)
        requires
            old(self).wf(),
        ensures
            final(self).wf(),
            final(self).buf() == ipv6_cascaded(old(self).buf(), old(self).envelope.hdr_off()),
            final(self).hdr_off() == old(self).hdr_off(),
            final(self).seg_count == old(self).seg_count,
    {
        self.envelope.cascade();
        proof {
            assert(final(self).buf()[final(self).hdr_off() + 1] == old(self).buf()[old(
                self,
            ).hdr_off() + 1]);
            assert(final(self).buf()[final(self).hdr_off() + 4] == old(self).buf()[old(
                self,
            ).hdr_off() + 4]);
        }
    }

    /// Size of the whole header: the fixed part plus the segment list.
    pub fn header_len(&self) -> (r: usize)
        requires
            self.wf(),
        ensures
            r == SRH_FIXED_SIZE + SEGMENT_SIZE * self.seg_count,
    {
        SRH_FIXED_SIZE + SEGMENT_SIZE * self.seg_count
    }

    /// Offset where the payload after the segment list starts.
    pub fn payload_offset(&self) -> (r: usize)
        requires
            self.wf(),
        ensures
            r == self.hdr_off() + SRH_FIXED_SIZE + SEGMENT_SIZE * self.seg_count,
    {
        self.offset + SRH_FIXED_SIZE + SEGMENT_SIZE * self.seg_count
    }

    /// The next-header protocol number.
    pub fn next_header(&self) -> (r: u8)
        requires
            self.wf(),
        ensures
            r == self.next_header_spec(),
    {
        self.envelope.envelope.envelope.mbuf.get_data(self.offset)
    }

    /// Overwrite the next-header protocol number.
    pub fn set_next_header(&mut self, next_header: u8)
        requires
            old(self).wf(),
        ensures
            final(self).wf(),
            final(self).buf() == old(self).buf().update(old(self).hdr_off(), next_header),
            final(self).next_header_spec() == next_header,
            final(self).hdr_off() == old(self).hdr_off(),
            final(self).seg_count == old(self).seg_count,
    {
        self.envelope.envelope.envelope.mbuf.set_data(self.offset, next_header);
    }

    /// The header-extension-length byte.
    pub fn hdr_ext_len(&self) -> (r: u8)
        requires
            self.wf(),
        ensures
            r == self.hdr_ext_len_spec(),
            r == 2 * self.seg_count,
    {
        self.envelope.envelope.envelope.mbuf.get_data(self.offset + 1)
    }

    /// The routing-type byte.
    pub fn routing_type(&self) -> (r: u8)
        requires
            self.wf(),
        ensures
            r == self.routing_type_spec(),
    {
        self.envelope.envelope.envelope.mbuf.get_data(self.offset + 2)
    }

    /// The segments-left byte.
    pub fn segments_left(&self) -> (r: u8)
        requires
            self.wf(),
        ensures
            r == self.segments_left_spec(),
    {
        self.envelope.envelope.envelope.mbuf.get_data(self.offset + 3)
    }

    /// Overwrite the segments-left byte.
    pub fn set_segments_left(&mut self, segments_left: u8)
        requires
            old(self).wf(),
        ensures
            final(self).wf(),
            final(self).buf() == old(self).buf().update(old(self).hdr_off() + 3, segments_left),
            final(self).segments_left_spec() == segments_left,
            final(self).hdr_off() == old(self).hdr_off(),
            final(self).seg_count == old(self).seg_count,
    {
        self.envelope.envelope.envelope.mbuf.set_data(self.offset + 3, segments_left);
    }

    /// The last-entry byte.
    pub fn last_entry(&self) -> (r: u8)
        requires
            self.wf(),
        ensures
            r == self.last_entry_spec(),
            r == self.seg_count - 1,
    {
        self.envelope.envelope.envelope.mbuf.get_data(self.offset + 4)
    }

    /// The flags byte.
    pub fn flags(&self) -> (r: u8)
        requires
            self.wf(),
        ensures
            r == self.flags_spec(),
    {
        self.envelope.envelope.envelope.mbuf.get_data(self.offset + 5)
    }

    /// The tag field.
    pub fn tag(&self) -> (r: u16)
        requires
            self.wf(),
        ensures
            r == self.tag_spec(),
    {
        let m = &self.envelope.envelope.envelope.mbuf;
        (m.get_data(self.offset + 6) as u16) * 256 + (m.get_data(self.offset + 7) as u16)
    }

    /// Overwrite the tag field.
    pub fn set_tag(&mut self, tag: u16)
        requires
            old(self).wf(),
        ensures
            final(self).wf(),
            final(self).buf() == splice(old(self).buf(), old(self).hdr_off() + 6, be16_bytes(tag)),
            final(self).tag_spec() == tag,
            final(self).hdr_off() == old(self).hdr_off(),
            final(self).seg_count == old(self).seg_count,
    {
        let o = self.offset + 6;
        let m = &mut self.envelope.envelope.envelope.mbuf;
        m.set_data(o, (tag / 256) as u8);
        m.set_data(o + 1, (tag % 256) as u8);
        proof {
            assert(self.buf() =~= splice(old(self).buf(), old(self).hdr_off() + 6, be16_bytes(
                tag,
            )));
            assert(tag / 256 * 256 + tag % 256 == tag) by {
                vstd::arithmetic::div_mod::lemma_fundamental_div_mod(tag as int, 256);
            }
        }
    }

    /// Copy the segment list out of the buffer.
    pub fn segments(&self) -> (r: Vec<Segment>)
        requires
            self.wf(),
        ensures
            r@.len() == self.seg_count,
            forall|i: int| 0 <= i < self.seg_count ==> (#[trigger] r@[i]).0@
                == self.segment_bytes(i),
    {
        let mut out: Vec<Segment> = Vec::new();
        let mut i: usize = 0;
        while i < self.seg_count
            invariant
                self.wf(),
                i <= self.seg_count,
                out@.len() == i,
                forall|j: int| 0 <= j < i ==> (#[trigger] out@[j]).0@ == self.segment_bytes(j),
            decreases self.seg_count - i,
        {
            out.push(self.segment(i));
            i = i + 1;
        }
        out
    }

    /// Read segment `i`.
    pub fn segment(&self, i: usize) -> (r: Segment)
        requires
            self.wf(),
            i < self.seg_count,
        ensures
            r.0@ == self.segment_bytes(i as int),
    {
        let o = self.offset + SRH_FIXED_SIZE + SEGMENT_SIZE * i;
        let m = &self.envelope.envelope.envelope.mbuf;
        proof {
            assert(SEGMENT_SIZE * i + SEGMENT_SIZE <= SEGMENT_SIZE * self.seg_count) by (
            nonlinear_arith)
                requires
                    i < self.seg_count,
            ;
            assert(SEGMENT_SIZE * i >= 0) by (nonlinear_arith)
                requires
                    i >= 0,
            ;
        }
        let r = Ipv6Address(
            [
                m.get_data(o),
                m.get_data(o + 1),
                m.get_data(o + 2),
                m.get_data(o + 3),
                m.get_data(o + 4),
                m.get_data(o + 5),
                m.get_data(o + 6),
                m.get_data(o + 7),
                m.get_data(o + 8),
                m.get_data(o + 9),
                m.get_data(o + 10),
                m.get_data(o + 11),
                m.get_data(o + 12),
                m.get_data(o + 13),
                m.get_data(o + 14),
                m.get_data(o + 15),
            ],
        );
        proof {
            assert(r.0@ =~= self.segment_bytes(i as int));
        }
        r
    }

    /// Overwrite segment `i`.
    pub fn set_segment(&mut self, i: usize, seg: Segment)
        requires
            old(self).wf(),
            i < old(self).seg_count,
        ensures
            final(self).wf(),
            final(self).buf() == splice(
                old(self).buf(),
                old(self).hdr_off() + SRH_FIXED_SIZE + SEGMENT_SIZE * i,
                seg.0@,
            ),
            final(self).segment_bytes(i as int) == seg.0@,
            final(self).hdr_off() == old(self).hdr_off(),
            final(self).seg_count == old(self).seg_count,
            final(self).headroom() == old(self).headroom(),
            final(self).tailroom() == old(self).tailroom(),
    {
        proof {
            let ghost oldn = old(self).seg_count;
            assert(SEGMENT_SIZE * i + SEGMENT_SIZE <= SEGMENT_SIZE * oldn) by (nonlinear_arith)
                requires
                    i < oldn,
            ;
            assert(SEGMENT_SIZE * i >= 0) by (nonlinear_arith)
                requires
                    i >= 0,
            ;
        }
        let o = self.offset + SRH_FIXED_SIZE + SEGMENT_SIZE * i;
        let m = &mut self.envelope.envelope.envelope.mbuf;
        let mut k: usize = 0;
        while k < 16
            invariant
                old(self).wf(),
                k <= 16,
                m.wf(),
                m.bytes().len() == old(self).buf().len(),
                m.headroom() == old(self).headroom(),
                m.tailroom() == old(self).tailroom(),
                o == old(self).hdr_off() + SRH_FIXED_SIZE + SEGMENT_SIZE * i,
                o + 16 <= m.bytes().len(),
                forall|j: int| 0 <= j < k ==> m.bytes()[o + j] == #[trigger] seg.0@[j],
                forall|p: int|
                    0 <= p < m.bytes().len() && !(o <= p < o + k) ==> #[trigger] m.bytes()[p]
                        == old(self).buf()[p],
                after_borrow(self).envelope.envelope.envelope.mbuf == *final(m),
                after_borrow(self).envelope.envelope.offset == old(self).envelope.envelope.offset,
                after_borrow(self).envelope.offset == old(self).envelope.offset,
                after_borrow(self).offset == old(self).offset,
                after_borrow(self).seg_count == old(self).seg_count,
            decreases 16 - k,
        {
            m.set_data(o + k, seg.0[k]);
            k = k + 1;
        }
        proof {
            assert(self.buf() =~= splice(
                old(self).buf(),
                old(self).hdr_off() + SRH_FIXED_SIZE + SEGMENT_SIZE * i,
                seg.0@,
            ));
            assert(final(self).segment_bytes(i as int) =~= seg.0@);
        }
    }

    /// Install a new segment list, growing or shrinking the header, and
    /// rewrite the header-extension-length and last-entry fields to match.
    /// An empty list is refused.
    pub fn set_segments(&mut self, segments: &Vec<Segment>) -> (r: Result<(), ParseError>)
        requires
            old(self).wf(),
            segments@.len() <= SRH_MAX_SEGMENTS,
        ensures
            final(self).wf(),
            final(self).hdr_off() == old(self).hdr_off(),
            match r {
                Ok(()) => {
                    &&& segments@.len() >= 1
                    &&& final(self).seg_count == segments@.len()
                    &&& final(self).buf().len() == old(self).buf().len() + SEGMENT_SIZE * (
                    segments@.len() - old(self).seg_count)
                    &&& forall|i: int|
                        0 <= i < segments@.len() ==> final(self).segment_bytes(i)
                            == (#[trigger] segments@[i]).0@
                    &&& final(self).hdr_ext_len_spec() == 2 * segments@.len()
                    &&& final(self).last_entry_spec() == segments@.len() - 1
                    &&& final(self).next_header_spec() == old(self).next_header_spec()
                    &&& final(self).routing_type_spec() == old(self).routing_type_spec()
                    &&& final(self).segments_left_spec() == old(self).segments_left_spec()
                    &&& final(self).flags_spec() == old(self).flags_spec()
                    &&& final(self).tag_spec() == old(self).tag_spec()
                    &&& final(self).buf().skip(
                        final(self).hdr_off() + SRH_FIXED_SIZE + SEGMENT_SIZE * segments@.len(),
                    ) == old(self).buf().skip(
                        old(self).hdr_off() + SRH_FIXED_SIZE + SEGMENT_SIZE * old(self).seg_count,
                    )
                    &&& final(self).buf().take(old(self).hdr_off()) == old(self).buf().take(
                        old(self).hdr_off(),
                    )
                },
                Err(e) => match e {
                    ParseError::Segments(_) => segments@.len() == 0 && *final(self) == *old(self),
                    ParseError::Buffer(BufferError::NotResized) => {
                        &&& segments@.len() > old(self).seg_count
                        &&& *final(self) == *old(self)
                    },
                    _ => false,
                },
            },
    {
        if segments.len() == 0 {
            return Err(ParseError::Segments(BadSegmentsError));
        }
        let n = segments.len();
        let old_n = self.seg_count;
        let seg_off: usize = self.offset + SRH_FIXED_SIZE;
        proof {
            assert(SEGMENT_SIZE * old_n >= SEGMENT_SIZE * 1) by (nonlinear_arith)
                requires
                    old_n >= 1,
            ;
            assert(SEGMENT_SIZE * n <= SEGMENT_SIZE * SRH_MAX_SEGMENTS) by (nonlinear_arith)
                requires
                    n <= SRH_MAX_SEGMENTS,
            ;
            assert(SEGMENT_SIZE * old_n <= SEGMENT_SIZE * SRH_MAX_SEGMENTS) by (nonlinear_arith)
                requires
                    old_n <= SRH_MAX_SEGMENTS,
            ;
        }
        {
            let m = &mut self.envelope.envelope.envelope.mbuf;
            if n >= old_n {
                match crate::buffer::alloc_bytes(m, seg_off, SEGMENT_SIZE * (n - old_n)) {
                    Ok(()) => {
                        proof {
                            assert(SEGMENT_SIZE * (n - old_n) == SEGMENT_SIZE * n - SEGMENT_SIZE
                                * old_n) by (nonlinear_arith);
                        }
                    }
                    Err(e) => {
                        proof {
                            assert(e == (BufferError::NotResized));
                            assert(SEGMENT_SIZE * (n - old_n) > 0 ==> n > old_n) by (
                            nonlinear_arith);
                        }
                        return Err(ParseError::Buffer(e));
                    }
                }
            } else {
                match crate::buffer::dealloc(m, seg_off, SEGMENT_SIZE * (old_n - n)) {
                    Ok(()) => {
                        proof {
                            assert(SEGMENT_SIZE * (old_n - n) == SEGMENT_SIZE * old_n
                                - SEGMENT_SIZE * n) by (nonlinear_arith);
                        }
                    }
                    Err(e) => {
                        proof {
                            assert(false);
                        }
                        return Err(ParseError::Buffer(e));
                    }
                }
            }
        }
        let ghost mid = self.buf();
        // flatten the segment list and write it in one pass
        let mut flat: Vec<u8> = Vec::new();
        let mut i: usize = 0;
        while i < n
            invariant
                i <= n,
                n == segments@.len(),
                flat@.len() == SEGMENT_SIZE * i,
                forall|j: int|
                    0 <= j < i ==> flat@.subrange(
                        SEGMENT_SIZE * j,
                        SEGMENT_SIZE * j + SEGMENT_SIZE,
                    ) == (#[trigger] segments@[j]).0@,
            decreases n - i,
        {
            let seg = segments[i];
            let mut k: usize = 0;
            while k < 16
                invariant
                    k <= 16,
                    i < n,
                    n == segments@.len(),
                    flat@.len() == SEGMENT_SIZE * i + k,
                    seg == segments@[i as int],
                    forall|j: int|
                        0 <= j < i ==> flat@.subrange(
                            SEGMENT_SIZE * j,
                            SEGMENT_SIZE * j + SEGMENT_SIZE,
                        ) == (#[trigger] segments@[j]).0@,
                    flat@.skip(SEGMENT_SIZE * i as int) == seg.0@.take(k as int),
                decreases 16 - k,
            {
                let ghost prev = flat@;
                flat.push(seg.0[k]);
                proof {
                    assert(flat@.skip(SEGMENT_SIZE * i as int) =~= seg.0@.take(k + 1));
                    assert forall|j: int| 0 <= j < i implies flat@.subrange(
                        SEGMENT_SIZE * j,
                        SEGMENT_SIZE * j + SEGMENT_SIZE,
                    ) == (#[trigger] segments@[j]).0@ by {
                        assert(SEGMENT_SIZE * j + SEGMENT_SIZE <= SEGMENT_SIZE * i) by (
                        nonlinear_arith)
                            requires
                                j < i,
                        ;
                        assert(SEGMENT_SIZE * j >= 0) by (nonlinear_arith)
                            requires
                                j >= 0,
                        ;
                        assert(flat@.subrange(SEGMENT_SIZE * j, SEGMENT_SIZE * j + SEGMENT_SIZE)
                            =~= prev.subrange(SEGMENT_SIZE * j, SEGMENT_SIZE * j + SEGMENT_SIZE));
                    }
                }
                k = k + 1;
            }
            proof {
                assert(flat@.skip(SEGMENT_SIZE * i as int) =~= seg.0@);
                assert(flat@.subrange(SEGMENT_SIZE * i as int, SEGMENT_SIZE * i + SEGMENT_SIZE)
                    =~= seg.0@);
            }
            i = i + 1;
        }
        match crate::buffer::write_slice(
            &mut self.envelope.envelope.envelope.mbuf,
            seg_off,
            &flat,
        ) {
            Ok(()) => {}
            Err(e) => {
                proof {
                    assert(false);
                }
                return Err(ParseError::Buffer(e));
            }
        }
        let ghost wrote = self.buf();
        let ext: u8 = (2 * n) as u8;
        let last: u8 = (n - 1) as u8;
        self.envelope.envelope.envelope.mbuf.set_data(self.offset + 1, ext);
        self.envelope.envelope.envelope.mbuf.set_data(self.offset + 4, last);
        self.seg_count = n;
        proof {
            let off = old(self).hdr_off();
            let so = off + SRH_FIXED_SIZE;
            let oldb = old(self).buf();
            assert forall|i2: int| 0 <= i2 < n implies final(self).segment_bytes(i2) == (
            #[trigger] segments@[i2]).0@ by {
                assert(SEGMENT_SIZE * i2 >= 0 && SEGMENT_SIZE * i2 + SEGMENT_SIZE <= SEGMENT_SIZE
                    * n) by (nonlinear_arith)
                    requires
                        0 <= i2 < n,
                ;
                assert(final(self).segment_bytes(i2) =~= flat@.subrange(
                    SEGMENT_SIZE * i2,
                    SEGMENT_SIZE * i2 + SEGMENT_SIZE,
                ));
            }
            assert forall|p: int| 0 <= p < off implies final(self).buf()[p] == oldb[p] by {
                assert(final(self).buf()[p] == wrote[p]);
                assert(wrote[p] == wrote.take(so)[p]);
                assert(mid[p] == mid.take(so)[p]);
                assert(oldb[p] == oldb.take(so)[p]);
            }
            assert(final(self).buf().take(off) =~= oldb.take(off));
            assert forall|p: int|
                off <= p < so && p != off + 1 && p != off + 4 implies final(self).buf()[p]
                    == #[trigger] oldb[p] by {
                assert(final(self).buf()[p] == wrote[p]);
                assert(wrote[p] == wrote.take(so)[p]);
                assert(mid[p] == mid.take(so)[p]);
                assert(oldb[p] == oldb.take(so)[p]);
            }
        }
        proof {
            let off = old(self).hdr_off();
            let so = off + SRH_FIXED_SIZE;
            let oldb = old(self).buf();
            let a_skip = final(self).buf().skip(so + SEGMENT_SIZE * n as int);
            let b_skip = oldb.skip(so + SEGMENT_SIZE * old_n as int);
            assert forall|q: int| 0 <= q < a_skip.len() implies a_skip[q] == #[trigger] b_skip[q]
                by {
                assert(a_skip[q] == final(self).buf()[so + SEGMENT_SIZE * n + q]);
                assert(b_skip[q] == oldb[so + SEGMENT_SIZE * old_n + q]);
                assert(final(self).buf()[so + SEGMENT_SIZE * n + q] == wrote[so + SEGMENT_SIZE * n
                    + q]);
                assert(wrote[so + SEGMENT_SIZE * n + q] == wrote.skip(so + SEGMENT_SIZE * n)[q]);
                assert(mid[so + SEGMENT_SIZE * n + q] == mid.skip(so + SEGMENT_SIZE * n)[q]);
                if n >= old_n {
                    let delta = SEGMENT_SIZE * (n - old_n);
                    assert(delta == SEGMENT_SIZE * n - SEGMENT_SIZE * old_n);
                    assert(mid[so + SEGMENT_SIZE * n + q] == mid.skip(so + delta)[SEGMENT_SIZE
                        * old_n + q]);
                    assert(oldb.skip(so)[SEGMENT_SIZE * old_n + q] == oldb[so + SEGMENT_SIZE
                        * old_n + q]);
                } else {
                    let delta = SEGMENT_SIZE * (old_n - n);
                    assert(delta == SEGMENT_SIZE * old_n - SEGMENT_SIZE * n);
                    assert(mid == oldb.take(so) + oldb.skip(so + delta));
                    assert(mid[so + SEGMENT_SIZE * n + q] == oldb.skip(so + delta)[SEGMENT_SIZE
                        * n + q]);
                    assert(oldb.skip(so + delta)[SEGMENT_SIZE * n + q] == oldb[so + delta
                        + SEGMENT_SIZE * n + q]);
                }
            }
            assert(a_skip =~= b_skip);
        }
        Ok(())
    }

    /// Overwrite the route's final destination: segment 0 is replaced, and
    /// when no segments are left to visit, the envelope's destination
    /// address is rewritten as well.
    pub fn set_dst(&mut self, dst: Ipv6Address)
        requires
            old(self).wf(),
        ensures
            final(self).wf(),
            final(self).segment_bytes(0) == dst.0@,
            final(self).seg_count == old(self).seg_count,
            final(self).hdr_off() == old(self).hdr_off(),
            final(self).buf().len() == old(self).buf().len(),
            old(self).segments_left_spec() != 0 ==> final(self).buf() == splice(
                old(self).buf(),
                old(self).hdr_off() + SRH_FIXED_SIZE,
                dst.0@,
            ),
            old(self).segments_left_spec() == 0 ==> final(self).buf() == splice(
                splice(old(self).buf(), old(self).hdr_off() + SRH_FIXED_SIZE, dst.0@),
                old(self).envelope.hdr_off() + 24,
                dst.0@,
            ),
    {
        self.set_segment(0, dst);
        if self.segments_left() == 0 {
            self.envelope.set_dst(dst);
            proof {
                assert(final(self).segment_bytes(0) =~= dst.0@);
            }
        }
    }

    /// The pseudo-header checksum contribution for an upper-layer protocol:
    /// the envelope's source address, the route's final destination
    /// (segment 0), the upper-layer length, and the protocol number.
    pub fn pseudo_header_sum(&self, packet_len: u16, proto: u8) -> (r: u64)
        requires
            self.wf(),
        ensures
            r == sum16(self.envelope.src_bytes(), 0) + sum16(self.segment_bytes(0), 0)
                + packet_len + proto,
            r <= 0xffff_ffff,
    {
        let src = match crate::buffer::read_slice(
            &self.envelope.envelope.envelope.mbuf,
            self.envelope.offset + 8,
            16,
        ) {
            Ok(v) => v,
            Err(_) => {
                proof {
                    assert(false);
                }
                Vec::new()
            }
        };
        let seg0 = match crate::buffer::read_slice(
            &self.envelope.envelope.envelope.mbuf,
            self.offset + SRH_FIXED_SIZE,
            16,
        ) {
            Ok(v) => v,
            Err(_) => {
                proof {
                    assert(false);
                }
                Vec::new()
            }
        };
        proof {
            crate::checksum::lemma_sum16_bounds(src@, 0);
            crate::checksum::lemma_sum16_bounds(seg0@, 0);
            assert(src@ =~= self.envelope.src_bytes());
            assert(seg0@ =~= self.segment_bytes(0));
        }
        crate::checksum::sum_words(&src) + crate::checksum::sum_words(&seg0) + packet_len as u64
            + proto as u64
    }
}

impl Ipv6Packet for SegmentRouting {

}

} // verus!
