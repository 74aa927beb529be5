//! Network address translation for transport flows: outbound flows get a
//! fresh source port on the NAT address, and the reverse mapping restores
//! inbound traffic.

use vstd::prelude::*;

verus! {

use crate::acl::flow_eq;
use crate::packet::{Flow, IpAddress};

/// The largest port; the allocator stops below it.
pub const MAX_PORT: u16 = 65535;

/// The first Flow in the table associated with `f`, if any.
pub open spec fn table_lookup(table: Seq<(Flow, Flow)>, f: Flow) -> Option<Flow>
    decreases table.len(),
{
    if table.len() == 0 {
        Option::None
    } else if flow_eq(table[0].0, f) {
        Option::Some(table[0].1)
    } else {
        table_lookup(table.skip(1), f)
    }
}

/// The translation state: the flow table and the next port to hand out.
pub struct NatState {
    pub port_map: Vec<(Flow, Flow)>,
    pub next_port: u16,
}

impl NatState {
    /// A fresh translator that hands out ports from `first_port` on.
    pub fn new(first_port: u16) -> (r: NatState)
        ensures
            r.port_map@.len() == 0,
            r.next_port == first_port,
    {
        NatState { port_map: Vec::new(), next_port: first_port }
    }

    /// Look a flow up in the table.
    pub fn lookup(&self, flow: &Flow) -> (r: Option<Flow>)
        ensures
            r == table_lookup(self.port_map@, *flow),
    {
        let mut i: usize = 0;
        proof {
            assert(self.port_map@.skip(0) =~= self.port_map@);
        }
        while i < self.port_map.len()
            invariant
                i <= self.port_map@.len(),
                table_lookup(self.port_map@, *flow) == table_lookup(
                    self.port_map@.skip(i as int),
                    *flow,
                ),
            decreases self.port_map@.len() - i,
        {
            let entry = &self.port_map[i];
            if entry.0 == *flow {
                proof {
                    assert(self.port_map@.skip(i as int)[0] == self.port_map@[i as int]);
                }
                return Some(entry.1);
            }
            proof {
                assert(self.port_map@.skip(i as int)[0] == self.port_map@[i as int]);
                assert(self.port_map@.skip(i as int).skip(1) =~= self.port_map@.skip(i + 1));
            }
            i = i + 1;
        }
        proof {
            assert(self.port_map@.skip(self.port_map@.len() as int) =~= Seq::<(
                Flow,
                Flow,
            )>::empty());
        }
        None
    }

    /// Translate a flow.  A known flow is rewritten by its table entry.  An
    /// unknown flow is assigned the next free port on the NAT address, and
    /// both directions are entered into the table; once the ports are
    /// exhausted unknown flows are left untranslated.
    pub fn rewrite(&mut self, flow: &Flow, nat_ip: u32) -> (r: Option<Flow>)
        ensures
            match table_lookup(old(self).port_map@, *flow) {
                Some(out) => r == Some(out) && *final(self) == *old(self),
                None => {
                    if old(self).next_port < MAX_PORT {
                        let outgoing = Flow {
                            src_ip: IpAddress::V4(nat_ip),
                            dst_ip: flow.dst_ip,
                            src_port: old(self).next_port,
                            dst_port: flow.dst_port,
                            protocol: flow.protocol,
                        };
                        &&& r == Some(outgoing)
                        &&& final(self).next_port == old(self).next_port + 1
                        &&& final(self).port_map@ == old(self).port_map@.push(
                            (*flow, outgoing),
                        ).push((outgoing.reverse_spec(), flow.reverse_spec()))
                    } else {
                        r is None && *final(self) == *old(self)
                    }
                },
            },
    {
        match self.lookup(flow) {
            Some(out) => Some(out),
            None => {
                if self.next_port < MAX_PORT {
                    let assigned = self.next_port;
                    let outgoing = Flow {
                        src_ip: IpAddress::V4(nat_ip),
                        dst_ip: flow.dst_ip,
                        src_port: assigned,
                        dst_port: flow.dst_port,
                        protocol: flow.protocol,
                    };
                    self.port_map.push((*flow, outgoing));
                    self.port_map.push((outgoing.reverse(), flow.reverse()));
                    self.next_port = assigned + 1;
                    Some(outgoing)
                } else {
                    None
                }
            }
        }
    }
}

} // verus!
