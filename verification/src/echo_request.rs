//! Accessors of the ICMPv6 echo request message: identifier, sequence
//! number, and the free-form data that follows them.

use vstd::prelude::*;

verus! {

use crate::buffer::{be16, be16_bytes, splice, BufferError};
use crate::icmpv6::{EchoRequest, Icmpv6, Icmpv6Payload, ICMPV6_HEADER_SIZE};
use crate::packet::ParseError;

impl Icmpv6<EchoRequest> {
    /// The identifier field.
    pub open spec fn identifier_spec(&self) -> u16 {
        be16(self.buf(), self.hdr_off() + 4)
    }

    /// The sequence-number field.
    pub open spec fn seq_no_spec(&self) -> u16 {
        be16(self.buf(), self.hdr_off() + 6)
    }

    /// Offset where the data field starts.
    pub open spec fn data_off_spec(&self) -> int {
        self.hdr_off() + ICMPV6_HEADER_SIZE + <EchoRequest as Icmpv6Payload>::spec_size()
    }

    /// The identifier.
    pub fn identifier(&self) -> (r: u16)
        requires
            self.wf(),
        ensures
            r == self.identifier_spec(),
    {
        let m = &self.envelope.envelope.envelope.mbuf;
        (m.get_data(self.offset + 4) as u16) * 256 + (m.get_data(self.offset + 5) as u16)
    }

    /// Overwrite the identifier.
    pub fn set_identifier(&mut self, identifier: u16)
        requires
            old(self).wf(),
        ensures
            final(self).wf(),
            final(self).buf() == splice(
                old(self).buf(),
                old(self).hdr_off() + 4,
                be16_bytes(identifier),
            ),
            final(self).identifier_spec() == identifier,
            final(self).hdr_off() == old(self).hdr_off(),
            final(self).headroom() == old(self).headroom(),
            final(self).tailroom() == old(self).tailroom(),
    {
        let o = self.offset + 4;
        let m = &mut self.envelope.envelope.envelope.mbuf;
        m.set_data(o, (identifier / 256) as u8);
        m.set_data(o + 1, (identifier % 256) as u8);
        proof {
            assert(self.buf() =~= splice(old(self).buf(), old(self).hdr_off() + 4, be16_bytes(
                identifier,
            )));
            assert(identifier / 256 * 256 + identifier % 256 == identifier) by {
                vstd::arithmetic::div_mod::lemma_fundamental_div_mod(identifier as int, 256);
            }
        }
    }

    /// The sequence number.
    pub fn seq_no(&self) -> (r: u16)
        requires
            self.wf(),
        ensures
            r == self.seq_no_spec(),
    {
        let m = &self.envelope.envelope.envelope.mbuf;
        (m.get_data(self.offset + 6) as u16) * 256 + (m.get_data(self.offset + 7) as u16)
    }

    /// Overwrite the sequence number.
    pub fn set_seq_no(&mut self, seq_no: u16)
        requires
            old(self).wf(),
        ensures
            final(self).wf(),
            final(self).buf() == splice(
                old(self).buf(),
                old(self).hdr_off() + 6,
                be16_bytes(seq_no),
            ),
            final(self).seq_no_spec() == seq_no,
            final(self).hdr_off() == old(self).hdr_off(),
            final(self).headroom() == old(self).headroom(),
            final(self).tailroom() == old(self).tailroom(),
    {
        let o = self.offset + 6;
        let m = &mut self.envelope.envelope.envelope.mbuf;
        m.set_data(o, (seq_no / 256) as u8);
        m.set_data(o + 1, (seq_no % 256) as u8);
        proof {
            assert(self.buf() =~= splice(old(self).buf(), old(self).hdr_off() + 6, be16_bytes(
                seq_no,
            )));
            assert(seq_no / 256 * 256 + seq_no % 256 == seq_no) by {
                vstd::arithmetic::div_mod::lemma_fundamental_div_mod(seq_no as int, 256);
            }
        }
    }

    /// The free-form data after the fixed payload.
    pub fn data(&self) -> (r: Vec<u8>)
        requires
            self.wf(),
        ensures
            r@ == self.buf().skip(self.data_off_spec()),
    {
        let off: usize = self.offset + ICMPV6_HEADER_SIZE + <EchoRequest as Icmpv6Payload>::size();
        let len: usize = self.data_len() - off;
        match crate::buffer::read_slice(&self.envelope.envelope.envelope.mbuf, off, len) {
            Ok(v) => {
                proof {
                    assert(v@ =~= self.buf().skip(self.data_off_spec()));
                }
                v
            }
            Err(_) => {
                proof {
                    assert(false);
                }
                Vec::new()
            }
        }
    }

    /// Replace the free-form data, growing or shrinking the buffer as
    /// needed.
    pub fn set_data(&mut self, data: &Vec<u8>) -> (r: Result<(), ParseError>)
        requires
            old(self).wf(),
        ensures
            final(self).wf(),
            final(self).hdr_off() == old(self).hdr_off(),
            match r {
                Ok(()) => {
                    &&& final(self).buf() == old(self).buf().take(old(self).data_off_spec())
                        + data@
                    &&& final(self).identifier_spec() == old(self).identifier_spec()
                    &&& final(self).seq_no_spec() == old(self).seq_no_spec()
                },
                Err(e) => {
                    &&& e matches ParseError::Buffer(BufferError::NotResized)
                    &&& data@.len() > old(self).buf().len() - old(self).data_off_spec() + old(
                        self,
                    ).tailroom()
                    &&& *final(self) == *old(self)
                },
            },
    {
        let off: usize = self.offset + ICMPV6_HEADER_SIZE + <EchoRequest as Icmpv6Payload>::size();
        let old_len: usize = self.data_len() - off;
        let m = &mut self.envelope.envelope.envelope.mbuf;
        if data.len() >= old_len {
            match crate::buffer::alloc_bytes(m, off, data.len() - old_len) {
                Ok(()) => {}
                Err(e) => {
                    proof {
                        assert(e == (BufferError::NotResized));
                    }
                    return Err(ParseError::Buffer(e));
                }
            }
        } else {
            match crate::buffer::dealloc(m, off, old_len - data.len()) {
                Ok(()) => {}
                Err(e) => {
                    proof {
                        assert(false);
                    }
                    return Err(ParseError::Buffer(e));
                }
            }
        }
        match crate::buffer::write_slice(m, off, data) {
            Ok(()) => {}
            Err(e) => {
                proof {
                    assert(false);
                }
                return Err(ParseError::Buffer(e));
            }
        }
        proof {
            assert forall|p: int| 0 <= p < off implies self.buf()[p] == old(self).buf()[p] by {
                assert(self.buf()[p] == self.buf().take(off as int)[p]);
                assert(old(self).buf()[p] == old(self).buf().take(off as int)[p]);
            }
            assert forall|j: int| 0 <= j < data@.len() implies self.buf()[off + j] == data@[j] by {
                assert(self.buf()[off + j] == self.buf().subrange(
                    off as int,
                    off + data@.len(),
                )[j]);
            }
            assert(self.buf().len() == off + data@.len());
            assert(self.buf() =~= old(self).buf().take(old(self).data_off_spec()) + data@);
            assert(final(self).identifier_spec() == old(self).identifier_spec());
            assert(final(self).seq_no_spec() == old(self).seq_no_spec());
        }
        Ok(())
    }
}

} // verus!
