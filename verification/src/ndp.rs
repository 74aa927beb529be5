//! NDP options: the type/length-prefixed options that follow an NDP
//! message body, walked one option at a time.

use vstd::prelude::*;

verus! {

use crate::ethernet::MacAddr;
use crate::mbuf::MBuf;
use crate::packet::{Ipv6Address, ParseError};

/// Option type of a source link-layer address.
pub const NDP_OPT_SOURCE_LINK_LAYER_ADDR: u8 = 1;

/// Option type of a target link-layer address.
pub const NDP_OPT_TARGET_LINK_LAYER_ADDR: u8 = 2;

/// Option type of prefix information.
pub const NDP_OPT_PREFIX_INFORMATION: u8 = 3;

/// Option type of a link MTU.
pub const NDP_OPT_MTU: u8 = 5;

/// A link-layer address option.
#[derive(Debug, Copy, Clone)]
pub struct LinkLayerAddress {
    pub option_type: u8,
    pub length: u8,
    pub addr: MacAddr,
}

/// A prefix-information option.
#[derive(Debug, Copy, Clone)]
pub struct PrefixInformation {
    pub option_type: u8,
    pub length: u8,
    pub prefix_length: u8,
    pub flags: u8,
    pub valid_lifetime: u32,
    pub preferred_lifetime: u32,
    pub prefix: Ipv6Address,
}

/// A link MTU option.
#[derive(Debug, Copy, Clone)]
pub struct Mtu {
    pub option_type: u8,
    pub length: u8,
    pub mtu: u32,
}

/// A parsed NDP option.
pub enum NdpOption {
    /// The link-layer address of the sender.
    SourceLinkLayerAddress(LinkLayerAddress),
    /// The link-layer address of the target.
    TargetLinkLayerAddress(LinkLayerAddress),
    /// An on-link or autoconfiguration prefix.
    PrefixInformation(PrefixInformation),
    /// The link MTU.
    Mtu(Mtu),
    /// An option this crate does not model further: its type and length.
    Undefined(u8, u8),
}

/// Walks the NDP options of a buffer from a starting offset.
pub struct NdpOptionsIterator {
    pub offset: usize,
}

impl NdpOptionsIterator {
    /// An options walk starting at `offset`.
    pub fn new(offset: usize) -> (r: NdpOptionsIterator)
        ensures
            r.offset == offset,
    {
        NdpOptionsIterator { offset }
    }

    /// Parse the option at the cursor and advance past it.  Returns
    /// nothing once the cursor has passed the live data; an option whose
    /// length field is zero is an error, as the walk could not advance.
    pub fn next_option(&mut self, mbuf: &MBuf) -> (r: Result<Option<NdpOption>, ParseError>)
        requires
            mbuf.wf(),
        ensures
            match r {
                Ok(Some(opt)) => {
                    let b = mbuf.bytes();
                    let o = old(self).offset as int;
                    &&& o + 2 <= b.len()
                    &&& b[o + 1] != 0
                    &&& final(self).offset == o + 8 * b[o + 1]
                    &&& match opt {
                        NdpOption::SourceLinkLayerAddress(lla) => {
                            &&& b[o] == NDP_OPT_SOURCE_LINK_LAYER_ADDR
                            &&& o + 8 <= b.len()
                            &&& lla.option_type == b[o]
                            &&& lla.length == b[o + 1]
                            &&& lla.addr.0@ == b.subrange(o + 2, o + 8)
                        },
                        NdpOption::TargetLinkLayerAddress(lla) => {
                            &&& b[o] == NDP_OPT_TARGET_LINK_LAYER_ADDR
                            &&& o + 8 <= b.len()
                            &&& lla.option_type == b[o]
                            &&& lla.length == b[o + 1]
                            &&& lla.addr.0@ == b.subrange(o + 2, o + 8)
                        },
                        NdpOption::PrefixInformation(pi) => {
                            &&& b[o] == NDP_OPT_PREFIX_INFORMATION
                            &&& o + 32 <= b.len()
                            &&& pi.option_type == b[o]
                            &&& pi.length == b[o + 1]
                            &&& pi.prefix_length == b[o + 2]
                            &&& pi.flags == b[o + 3]
                            &&& pi.valid_lifetime == crate::buffer::be32(b, o + 4)
                            &&& pi.preferred_lifetime == crate::buffer::be32(b, o + 8)
                            &&& pi.prefix.0@ == b.subrange(o + 16, o + 32)
                        },
                        NdpOption::Mtu(mtu) => {
                            &&& b[o] == NDP_OPT_MTU
                            &&& o + 8 <= b.len()
                            &&& mtu.option_type == b[o]
                            &&& mtu.length == b[o + 1]
                            &&& mtu.mtu == crate::buffer::be32(b, o + 4)
                        },
                        NdpOption::Undefined(t, l) => {
                            &&& t == b[o]
                            &&& l == b[o + 1]
                            &&& {
                                ||| (b[o] != NDP_OPT_SOURCE_LINK_LAYER_ADDR && b[o]
                                    != NDP_OPT_TARGET_LINK_LAYER_ADDR && b[o]
                                    != NDP_OPT_PREFIX_INFORMATION && b[o] != NDP_OPT_MTU)
                                ||| (b[o] == NDP_OPT_PREFIX_INFORMATION && b.len() < o + 32)
                                ||| (b[o] != NDP_OPT_PREFIX_INFORMATION && b.len() < o + 8)
                            }
                        },
                    }
                },
                Ok(None) => old(self).offset > mbuf.bytes().len() && *final(self) == *old(self),
                Err(e) => {
                    &&& *final(self) == *old(self)
                    &&& if old(self).offset + 2 > mbuf.bytes().len() {
                        e matches ParseError::Buffer(_)
                    } else {
                        e == (ParseError::ZeroLengthOption) && mbuf.bytes()[old(self).offset + 1]
                            == 0
                    }
                },
            },
    {
        let buffer_len = mbuf.data_len();
        if self.offset > buffer_len {
            return Ok(None);
        }
        if buffer_len - self.offset < 2 {
            return Err(
                ParseError::Buffer(crate::buffer::BufferError::OutOfBuffer(2)),
            );
        }
        let option_type = mbuf.get_data(self.offset);
        let length = mbuf.get_data(self.offset + 1);
        if length == 0 {
            return Err(ParseError::ZeroLengthOption);
        }
        let o = self.offset;
        let option: NdpOption = if option_type == NDP_OPT_SOURCE_LINK_LAYER_ADDR && buffer_len - o
            >= 8 {
            NdpOption::SourceLinkLayerAddress(
                LinkLayerAddress {
                    option_type,
                    length,
                    addr: MacAddr(
                        [
                            mbuf.get_data(o + 2),
                            mbuf.get_data(o + 3),
                            mbuf.get_data(o + 4),
                            mbuf.get_data(o + 5),
                            mbuf.get_data(o + 6),
                            mbuf.get_data(o + 7),
                        ],
                    ),
                },
            )
        } else if option_type == NDP_OPT_TARGET_LINK_LAYER_ADDR && buffer_len - o >= 8 {
            NdpOption::TargetLinkLayerAddress(
                LinkLayerAddress {
                    option_type,
                    length,
                    addr: MacAddr(
                        [
                            mbuf.get_data(o + 2),
                            mbuf.get_data(o + 3),
                            mbuf.get_data(o + 4),
                            mbuf.get_data(o + 5),
                            mbuf.get_data(o + 6),
                            mbuf.get_data(o + 7),
                        ],
                    ),
                },
            )
        } else if option_type == NDP_OPT_PREFIX_INFORMATION && buffer_len - o >= 32 {
            NdpOption::PrefixInformation(
                PrefixInformation {
                    option_type,
                    length,
                    prefix_length: mbuf.get_data(o + 2),
                    flags: mbuf.get_data(o + 3),
                    valid_lifetime: read_be32(mbuf, o + 4),
                    preferred_lifetime: read_be32(mbuf, o + 8),
                    prefix: Ipv6Address(
                        [
                            mbuf.get_data(o + 16),
                            mbuf.get_data(o + 17),
                            mbuf.get_data(o + 18),
                            mbuf.get_data(o + 19),
                            mbuf.get_data(o + 20),
                            mbuf.get_data(o + 21),
                            mbuf.get_data(o + 22),
                            mbuf.get_data(o + 23),
                            mbuf.get_data(o + 24),
                            mbuf.get_data(o + 25),
                            mbuf.get_data(o + 26),
                            mbuf.get_data(o + 27),
                            mbuf.get_data(o + 28),
                            mbuf.get_data(o + 29),
                            mbuf.get_data(o + 30),
                            mbuf.get_data(o + 31),
                        ],
                    ),
                },
            )
        } else if option_type == NDP_OPT_MTU && buffer_len - o >= 8 {
            NdpOption::Mtu(Mtu { option_type, length, mtu: read_be32(mbuf, o + 4) })
        } else {
            NdpOption::Undefined(option_type, length)
        };
        proof {
            match option {
                NdpOption::SourceLinkLayerAddress(lla) => {
                    assert(lla.addr.0@ =~= mbuf.bytes().subrange(o + 2, o as int + 8));
                }
                NdpOption::TargetLinkLayerAddress(lla) => {
                    assert(lla.addr.0@ =~= mbuf.bytes().subrange(o + 2, o as int + 8));
                }
                NdpOption::PrefixInformation(pi) => {
                    assert(pi.prefix.0@ =~= mbuf.bytes().subrange(o + 16, o as int + 32));
                }
                _ => {}
            }
        }
        self.offset = self.offset + 8 * length as usize;
        Ok(Some(option))
    }
}

/// Read the 32-bit big-endian value at `off`.
fn read_be32(mbuf: &MBuf, off: usize) -> (r: u32)
    requires
        mbuf.wf(),
        off + 4 <= mbuf.bytes().len(),
    ensures
        r == crate::buffer::be32(mbuf.bytes(), off as int),
{
    (mbuf.get_data(off) as u32) * 0x1000000 + (mbuf.get_data(off + 1) as u32) * 0x10000 + (
    mbuf.get_data(off + 2) as u32) * 0x100 + (mbuf.get_data(off + 3) as u32)
}

} // verus!
