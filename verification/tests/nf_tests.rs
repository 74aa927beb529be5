//! Tests of the network-function building blocks: ACL matching, NAT port
//! allocation, and the Maglev lookup table.

use safebricks::acl::{acl_match, Acl};
use safebricks::maglev::Maglev;
use safebricks::nat_table::NatState;
use safebricks::packet::{Flow, IpAddress};

fn v4_flow(src: u32, dst: u32, sp: u16, dp: u16) -> Flow {
    Flow::new(IpAddress::V4(src), IpAddress::V4(dst), sp, dp, 6)
}

#[test]
fn acl_matches_src_port() {
    // the list holds one non-dropping rule requiring source port 1338
    let acls = vec![Acl {
        src_prefix: None,
        dst_prefix: None,
        src_port: Some(1338),
        dst_port: None,
        established: None,
        drop: false,
    }];
    let mut cache: Vec<Flow> = Vec::new();
    let hit = v4_flow(0x0a000002, 0x08080808, 1338, 80);
    let miss = v4_flow(0x0a000002, 0x08080808, 80, 80);
    assert!(acl_match(&acls, &hit, &mut cache));
    assert!(!acl_match(&acls, &miss, &mut cache));
    // the delivered flow was recorded as established
    assert_eq!(cache.len(), 1);
    assert_eq!(cache[0], hit);
}

#[test]
fn acl_prefix_and_established() {
    let acls = vec![Acl {
        src_prefix: Some((0x0a000000, 0xff000000)),
        dst_prefix: None,
        src_port: None,
        dst_port: None,
        established: None,
        drop: false,
    }];
    let mut cache: Vec<Flow> = Vec::new();
    assert!(acl_match(&acls, &v4_flow(0x0a010203, 1, 5, 5), &mut cache));
    assert!(!acl_match(&acls, &v4_flow(0x0b010203, 1, 5, 5), &mut cache));

    // a rule requiring an established connection only fires once the flow
    // (or its reverse) is cached
    let established_only = vec![Acl {
        src_prefix: None,
        dst_prefix: None,
        src_port: None,
        dst_port: None,
        established: Some(true),
        drop: false,
    }];
    let reply = v4_flow(1, 0x0a010203, 5, 5);
    let mut empty_cache: Vec<Flow> = Vec::new();
    assert!(!acl_match(&established_only, &reply, &mut empty_cache));
    let mut warm_cache = vec![reply.reverse()];
    assert!(acl_match(&established_only, &reply, &mut warm_cache));
}

#[test]
fn nat_port_allocation() {
    let mut state = NatState::new(1024);
    let nat_ip: u32 = 0x0a000001;
    let outbound = v4_flow(0x0a000002, 0x08080808, 5001, 80);

    // the first unseen outbound flow gets port 1024 on the NAT address
    let rewritten = state.rewrite(&outbound, nat_ip).unwrap();
    assert_eq!(rewritten.src_ip, IpAddress::V4(nat_ip));
    assert_eq!(rewritten.src_port, 1024);
    assert_eq!(rewritten.dst_ip, outbound.dst_ip);
    assert_eq!(rewritten.dst_port, 80);

    // a reply on the reverse flow is restored to the original endpoint
    let reply = rewritten.reverse();
    let restored = state.rewrite(&reply, nat_ip).unwrap();
    assert_eq!(restored, outbound.reverse());
    assert_eq!(restored.dst_ip, IpAddress::V4(0x0a000002));
    assert_eq!(restored.dst_port, 5001);

    // the translation is stable
    assert_eq!(state.rewrite(&outbound, nat_ip).unwrap(), rewritten);

    // the next unseen outbound flow uses port 1025
    let second = v4_flow(0x0a000003, 0x08080808, 6001, 443);
    assert_eq!(state.rewrite(&second, nat_ip).unwrap().src_port, 1025);
}

#[test]
fn nat_exhausted_ports() {
    let mut state = NatState::new(65535);
    let flow = v4_flow(1, 2, 3, 4);
    assert!(state.rewrite(&flow, 9).is_none());
}

#[test]
fn maglev_consistency() {
    let backends: Vec<Vec<u8>> = vec![b"A".to_vec(), b"B".to_vec(), b"C".to_vec()];
    let first = Maglev::new(&backends, 65537);
    let second = Maglev::new(&backends, 65537);
    // recomputing the table over the same backends and size maps every
    // fingerprint to the same backend
    for fingerprint in [0u64, 1, 42, 0xdeadbeef, u64::MAX] {
        assert_eq!(
            first.lookup_hash(fingerprint),
            second.lookup_hash(fingerprint)
        );
    }
    // every table position names a real backend
    assert_eq!(first.lut.len(), 65537);
    assert!(first.lut.iter().all(|b| (*b as usize) < backends.len()));
    // with a prime table size the backends share the load
    for b in 0..backends.len() as u32 {
        assert!(first.lut.iter().any(|e| *e == b));
    }
}

#[test]
fn maglev_distinct_backends_change_mapping() {
    let backends1: Vec<Vec<u8>> = vec![b"A".to_vec(), b"B".to_vec()];
    let backends2: Vec<Vec<u8>> = vec![b"A".to_vec()];
    let big = Maglev::new(&backends1, 65537);
    let small = Maglev::new(&backends2, 65537);
    assert!(small.lut.iter().all(|e| *e == 0));
    assert!(big.lut.iter().any(|e| *e == 1));
}
