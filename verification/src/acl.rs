//! A simple access-control list over transport five-tuples, with a
//! connection cache for rules that require an established flow.

use vstd::prelude::*;

verus! {

use crate::packet::{Flow, IpAddress};

/// One access-control rule: optional source and destination prefixes and
/// ports, an optional established-connection requirement, and whether a
/// match means the packet is dropped.
pub struct Acl {
    /// Required source network and mask; the rule applies when
    /// `ip & mask == network & mask`.
    pub src_prefix: Option<(u32, u32)>,
    /// Required destination network and mask.
    pub dst_prefix: Option<(u32, u32)>,
    pub src_port: Option<u16>,
    pub dst_port: Option<u16>,
    /// When set, the flow (or its reverse) must (or must not) already be
    /// in the connection cache.
    pub established: Option<bool>,
    pub drop: bool,
}

/// Whether an IPv4 prefix contains an address.  An IPv6 address is outside
/// every IPv4 prefix.
pub open spec fn prefix_contains_spec(network: u32, mask: u32, ip: IpAddress) -> bool {
    match ip {
        IpAddress::V4(a) => a & mask == network & mask,
        IpAddress::V6(_) => false,
    }
}

/// Whether the cache holds an entry equal to `flow`.
pub open spec fn cache_contains_spec(cache: Seq<Flow>, flow: Flow) -> bool {
    exists|i: int| 0 <= i < cache.len() && flow_eq(#[trigger] cache[i], flow)
}

/// Field-wise equality of flows.
pub open spec fn flow_eq(a: Flow, b: Flow) -> bool {
    &&& ip_eq(a.src_ip, b.src_ip)
    &&& ip_eq(a.dst_ip, b.dst_ip)
    &&& a.src_port == b.src_port
    &&& a.dst_port == b.dst_port
    &&& a.protocol == b.protocol
}

/// Field-wise equality of addresses.
pub open spec fn ip_eq(a: IpAddress, b: IpAddress) -> bool {
    match (a, b) {
        (IpAddress::V4(x), IpAddress::V4(y)) => x == y,
        (IpAddress::V6(x), IpAddress::V6(y)) => x.0@ == y.0@,
        _ => false,
    }
}

/// Whether a rule matches a flow, given the connection cache.
pub open spec fn acl_matches_spec(acl: Acl, flow: Flow, cache: Seq<Flow>) -> bool {
    &&& match acl.src_prefix {
        Some((network, mask)) => prefix_contains_spec(network, mask, flow.src_ip),
        None => true,
    }
    &&& match acl.dst_prefix {
        Some((network, mask)) => prefix_contains_spec(network, mask, flow.dst_ip),
        None => true,
    }
    &&& match acl.src_port {
        Some(p) => flow.src_port == p,
        None => true,
    }
    &&& match acl.dst_port {
        Some(p) => flow.dst_port == p,
        None => true,
    }
    &&& match acl.established {
        Some(established) => (cache_contains_spec(cache, flow) || cache_contains_spec(
            cache,
            flow.reverse_spec(),
        )) == established,
        None => true,
    }
}

impl Flow {
    /// The reversed five-tuple, at the specification level.
    pub open spec fn reverse_spec(&self) -> Flow {
        Flow {
            src_ip: self.dst_ip,
            dst_ip: self.src_ip,
            src_port: self.dst_port,
            dst_port: self.src_port,
            protocol: self.protocol,
        }
    }
}

/// Whether the connection cache holds `flow`.
pub fn cache_contains(cache: &Vec<Flow>, flow: &Flow) -> (r: bool)
    ensures
        r == cache_contains_spec(cache@, *flow),
{
    let mut i: usize = 0;
    while i < cache.len()
        invariant
            i <= cache@.len(),
            forall|j: int| 0 <= j < i ==> !flow_eq(#[trigger] cache@[j], *flow),
        decreases cache@.len() - i,
    {
        if cache[i] == *flow {
            return true;
        }
        i = i + 1;
    }
    false
}

impl Acl {
    /// Whether this rule matches `flow` under the connection cache.
    pub fn matches(&self, flow: &Flow, cache: &Vec<Flow>) -> (r: bool)
        ensures
            r == acl_matches_spec(*self, *flow, cache@),
    {
        let src_ok = match &self.src_prefix {
            Some(p) => match flow.src_ip {
                IpAddress::V4(a) => a & p.1 == p.0 & p.1,
                IpAddress::V6(_) => false,
            },
            None => true,
        };
        let dst_ok = match &self.dst_prefix {
            Some(p) => match flow.dst_ip {
                IpAddress::V4(a) => a & p.1 == p.0 & p.1,
                IpAddress::V6(_) => false,
            },
            None => true,
        };
        let sp_ok = match &self.src_port {
            Some(p) => flow.src_port == *p,
            None => true,
        };
        let dp_ok = match &self.dst_port {
            Some(p) => flow.dst_port == *p,
            None => true,
        };
        if !(src_ok && dst_ok && sp_ok && dp_ok) {
            return false;
        }
        match &self.established {
            Some(established) => {
                let rev = flow.reverse();
                let seen = cache_contains(cache, flow) || cache_contains(cache, &rev);
                seen == *established
            }
            None => true,
        }
    }
}

/// Match a flow against the rule list: the result says whether some rule
/// matched.  On a match with a non-dropping rule the flow is recorded in
/// the connection cache.
pub fn acl_match(acls: &Vec<Acl>, flow: &Flow, cache: &mut Vec<Flow>) -> (r: bool)
    ensures
        r == (exists|i: int|
            0 <= i < acls@.len() && acl_matches_spec(#[trigger] acls@[i], *flow, old(cache)@)),
        !r ==> final(cache)@ == old(cache)@,
        r ==> exists|i: int|
            {
                &&& 0 <= i < acls@.len()
                &&& acl_matches_spec(#[trigger] acls@[i], *flow, old(cache)@)
                &&& forall|j: int|
                    0 <= j < i ==> !acl_matches_spec(#[trigger] acls@[j], *flow, old(cache)@)
                &&& if acls@[i].drop {
                    final(cache)@ == old(cache)@
                } else {
                    final(cache)@ == old(cache)@.push(*flow)
                }
            },
{
    let mut i: usize = 0;
    while i < acls.len()
        invariant
            i <= acls@.len(),
            cache@ == old(cache)@,
            forall|j: int| 0 <= j < i ==> !acl_matches_spec(#[trigger] acls@[j], *flow, cache@),
        decreases acls@.len() - i,
    {
        if acls[i].matches(flow, cache) {
            if !acls[i].drop {
                cache.push(*flow);
            }
            return true;
        }
        i = i + 1;
    }
    false
}

} // verus!
