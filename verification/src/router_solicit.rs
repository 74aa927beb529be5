//! Accessors of the NDP router solicitation message, whose fixed payload is
//! a single reserved word.

use vstd::prelude::*;

verus! {

use crate::buffer::be32;
use crate::icmpv6::{Icmpv6, RouterSolicitation};

impl Icmpv6<RouterSolicitation> {
    /// The reserved word.
    pub open spec fn reserved_spec(&self) -> u32 {
        be32(self.buf(), self.hdr_off() + 4)
    }

    /// The reserved word; zero on messages that follow the protocol.
    pub fn reserved(&self) -> (r: u32)
        requires
            self.wf(),
        ensures
            r == self.reserved_spec(),
    {
        let m = &self.envelope.envelope.envelope.mbuf;
        let o = self.offset + 4;
        (m.get_data(o) as u32) * 0x1000000 + (m.get_data(o + 1) as u32) * 0x10000 + (m.get_data(
            o + 2,
        ) as u32) * 0x100 + (m.get_data(o + 3) as u32)
    }
}

} // verus!
