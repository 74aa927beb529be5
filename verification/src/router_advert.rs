//! Accessors of the NDP router advertisement message: hop limit, the
//! managed-address and other-configuration flags, router lifetime,
//! reachable time and retransmission timer.

use vstd::prelude::*;

verus! {

use crate::buffer::{be16, be16_bytes, be32, splice};
use crate::icmpv6::{Icmpv6, RouterAdvertisement};

/// The managed-address-configuration flag bit.
pub const RA_M_FLAG: u8 = 0x80;

/// The other-configuration flag bit.
pub const RA_O_FLAG: u8 = 0x40;

/// The four big-endian bytes of a 32-bit value.
pub open spec fn be32_bytes(v: u32) -> Seq<u8> {
    seq![
        (v / 0x1000000) as u8,
        (v / 0x10000 % 0x100) as u8,
        (v / 0x100 % 0x100) as u8,
        (v % 0x100) as u8,
    ]
}

impl Icmpv6<RouterAdvertisement> {
    /// The current-hop-limit field.
    pub open spec fn current_hop_limit_spec(&self) -> u8 {
        self.buf()[self.hdr_off() + 4]
    }

    /// The flags byte.
    pub open spec fn flags_spec(&self) -> u8 {
        self.buf()[self.hdr_off() + 5]
    }

    /// The router-lifetime field.
    pub open spec fn router_lifetime_spec(&self) -> u16 {
        be16(self.buf(), self.hdr_off() + 6)
    }

    /// The reachable-time field.
    pub open spec fn reachable_time_spec(&self) -> u32 {
        be32(self.buf(), self.hdr_off() + 8)
    }

    /// The retransmission-timer field.
    pub open spec fn retrans_timer_spec(&self) -> u32 {
        be32(self.buf(), self.hdr_off() + 12)
    }

    /// The current hop limit.
    pub fn current_hop_limit(&self) -> (r: u8)
        requires
            self.wf(),
        ensures
            r == self.current_hop_limit_spec(),
    {
        self.envelope.envelope.envelope.mbuf.get_data(self.offset + 4)
    }

    /// Overwrite the current hop limit.
    pub fn set_current_hop_limit(&mut self, current_hop_limit: u8)
        requires
            old(self).wf(),
        ensures
            final(self).wf(),
            final(self).buf() == old(self).buf().update(
                old(self).hdr_off() + 4,
                current_hop_limit,
            ),
            final(self).current_hop_limit_spec() == current_hop_limit,
            final(self).hdr_off() == old(self).hdr_off(),
    {
        self.envelope.envelope.envelope.mbuf.set_data(self.offset + 4, current_hop_limit);
    }

    /// Whether the managed-address-configuration flag is set.
    pub fn managed_addr_cfg(&self) -> (r: bool)
        requires
            self.wf(),
        ensures
            r == (self.flags_spec() & RA_M_FLAG != 0),
    {
        self.envelope.envelope.envelope.mbuf.get_data(self.offset + 5) & RA_M_FLAG != 0
    }

    /// Set the managed-address-configuration flag.
    pub fn set_managed_addr_cfg(&mut self)
        requires
            old(self).wf(),
        ensures
            final(self).wf(),
            final(self).buf() == old(self).buf().update(
                old(self).hdr_off() + 5,
                old(self).flags_spec() | RA_M_FLAG,
            ),
            final(self).flags_spec() & RA_M_FLAG != 0,
            final(self).hdr_off() == old(self).hdr_off(),
    {
        let f = self.envelope.envelope.envelope.mbuf.get_data(self.offset + 5);
        self.envelope.envelope.envelope.mbuf.set_data(self.offset + 5, f | RA_M_FLAG);
        proof {
            assert((f | 0x80u8) & 0x80u8 != 0) by (bit_vector);
        }
    }

    /// Clear the managed-address-configuration flag.
    pub fn unset_managed_addr_cfg(&mut self)
        requires
            old(self).wf(),
        ensures
            final(self).wf(),
            final(self).buf() == old(self).buf().update(
                old(self).hdr_off() + 5,
                old(self).flags_spec() & !RA_M_FLAG,
            ),
            final(self).flags_spec() & RA_M_FLAG == 0,
            final(self).hdr_off() == old(self).hdr_off(),
    {
        let f = self.envelope.envelope.envelope.mbuf.get_data(self.offset + 5);
        self.envelope.envelope.envelope.mbuf.set_data(self.offset + 5, f & !RA_M_FLAG);
        proof {
            assert((f & !0x80u8) & 0x80u8 == 0) by (bit_vector);
        }
    }

    /// Whether the other-configuration flag is set.
    pub fn other_cfg(&self) -> (r: bool)
        requires
            self.wf(),
        ensures
            r == (self.flags_spec() & RA_O_FLAG != 0),
    {
        self.envelope.envelope.envelope.mbuf.get_data(self.offset + 5) & RA_O_FLAG != 0
    }

    /// Set the other-configuration flag.
    pub fn set_other_cfg(&mut self)
        requires
            old(self).wf(),
        ensures
            final(self).wf(),
            final(self).buf() == old(self).buf().update(
                old(self).hdr_off() + 5,
                old(self).flags_spec() | RA_O_FLAG,
            ),
            final(self).flags_spec() & RA_O_FLAG != 0,
            final(self).hdr_off() == old(self).hdr_off(),
    {
        let f = self.envelope.envelope.envelope.mbuf.get_data(self.offset + 5);
        self.envelope.envelope.envelope.mbuf.set_data(self.offset + 5, f | RA_O_FLAG);
        proof {
            assert((f | 0x40u8) & 0x40u8 != 0) by (bit_vector);
        }
    }

    /// Clear the other-configuration flag.
    pub fn unset_other_cfg(&mut self)
        requires
            old(self).wf(),
        ensures
            final(self).wf(),
            final(self).buf() == old(self).buf().update(
                old(self).hdr_off() + 5,
                old(self).flags_spec() & !RA_O_FLAG,
            ),
            final(self).flags_spec() & RA_O_FLAG == 0,
            final(self).hdr_off() == old(self).hdr_off(),
    {
        let f = self.envelope.envelope.envelope.mbuf.get_data(self.offset + 5);
        self.envelope.envelope.envelope.mbuf.set_data(self.offset + 5, f & !RA_O_FLAG);
        proof {
            assert((f & !0x40u8) & 0x40u8 == 0) by (bit_vector);
        }
    }

    /// The router lifetime, in seconds.
    pub fn router_lifetime(&self) -> (r: u16)
        requires
            self.wf(),
        ensures
            r == self.router_lifetime_spec(),
    {
        let m = &self.envelope.envelope.envelope.mbuf;
        (m.get_data(self.offset + 6) as u16) * 256 + (m.get_data(self.offset + 7) as u16)
    }

    /// Overwrite the router lifetime.
    pub fn set_router_lifetime(&mut self, router_lifetime: u16)
        requires
            old(self).wf(),
        ensures
            final(self).wf(),
            final(self).buf() == splice(
                old(self).buf(),
                old(self).hdr_off() + 6,
                be16_bytes(router_lifetime),
            ),
            final(self).router_lifetime_spec() == router_lifetime,
            final(self).hdr_off() == old(self).hdr_off(),
    {
        let o = self.offset + 6;
        let m = &mut self.envelope.envelope.envelope.mbuf;
        m.set_data(o, (router_lifetime / 256) as u8);
        m.set_data(o + 1, (router_lifetime % 256) as u8);
        proof {
            assert(self.buf() =~= splice(old(self).buf(), old(self).hdr_off() + 6, be16_bytes(
                router_lifetime,
            )));
            assert(router_lifetime / 256 * 256 + router_lifetime % 256 == router_lifetime) by {
                vstd::arithmetic::div_mod::lemma_fundamental_div_mod(router_lifetime as int, 256);
            }
        }
    }

    /// The reachable time, in milliseconds.
    pub fn reachable_time(&self) -> (r: u32)
        requires
            self.wf(),
        ensures
            r == self.reachable_time_spec(),
    {
        let m = &self.envelope.envelope.envelope.mbuf;
        let o = self.offset + 8;
        (m.get_data(o) as u32) * 0x1000000 + (m.get_data(o + 1) as u32) * 0x10000 + (m.get_data(
            o + 2,
        ) as u32) * 0x100 + (m.get_data(o + 3) as u32)
    }

    /// Overwrite the reachable time.
    pub fn set_reachable_time(&mut self, reachable_time: u32)
        requires
            old(self).wf(),
        ensures
            final(self).wf(),
            final(self).buf() == splice(
                old(self).buf(),
                old(self).hdr_off() + 8,
                be32_bytes(reachable_time),
            ),
            final(self).reachable_time_spec() == reachable_time,
            final(self).hdr_off() == old(self).hdr_off(),
    {
        let o = self.offset + 8;
        let v = reachable_time;
        let m = &mut self.envelope.envelope.envelope.mbuf;
        m.set_data(o, (v / 0x1000000) as u8);
        m.set_data(o + 1, (v / 0x10000 % 0x100) as u8);
        m.set_data(o + 2, (v / 0x100 % 0x100) as u8);
        m.set_data(o + 3, (v % 0x100) as u8);
        proof {
            assert(self.buf() =~= splice(old(self).buf(), old(self).hdr_off() + 8, be32_bytes(
                v,
            )));
            assert(v / 0x1000000 * 0x1000000 + v / 0x10000 % 0x100 * 0x10000 + v / 0x100 % 0x100
                * 0x100 + v % 0x100 == v) by (bit_vector);
        }
    }

    /// The retransmission timer, in milliseconds.
    pub fn retrans_timer(&self) -> (r: u32)
        requires
            self.wf(),
        ensures
            r == self.retrans_timer_spec(),
    {
        let m = &self.envelope.envelope.envelope.mbuf;
        let o = self.offset + 12;
        (m.get_data(o) as u32) * 0x1000000 + (m.get_data(o + 1) as u32) * 0x10000 + (m.get_data(
            o + 2,
        ) as u32) * 0x100 + (m.get_data(o + 3) as u32)
    }

    /// Overwrite the retransmission timer.
    pub fn set_retrans_timer(&mut self, retrans_timer: u32)
        requires
            old(self).wf(),
        ensures
            final(self).wf(),
            final(self).buf() == splice(
                old(self).buf(),
                old(self).hdr_off() + 12,
                be32_bytes(retrans_timer),
            ),
            final(self).retrans_timer_spec() == retrans_timer,
            final(self).hdr_off() == old(self).hdr_off(),
    {
        let o = self.offset + 12;
        let v = retrans_timer;
        let m = &mut self.envelope.envelope.envelope.mbuf;
        m.set_data(o, (v / 0x1000000) as u8);
        m.set_data(o + 1, (v / 0x10000 % 0x100) as u8);
        m.set_data(o + 2, (v / 0x100 % 0x100) as u8);
        m.set_data(o + 3, (v % 0x100) as u8);
        proof {
            assert(self.buf() =~= splice(old(self).buf(), old(self).hdr_off() + 12, be32_bytes(
                v,
            )));
            assert(v / 0x1000000 * 0x1000000 + v / 0x10000 % 0x100 * 0x10000 + v / 0x100 % 0x100
                * 0x100 + v % 0x100 == v) by (bit_vector);
        }
    }
}

} // verus!
