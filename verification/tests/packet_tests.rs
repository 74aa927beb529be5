//! Tests of the packet parse layer: Ethernet, IPv6, UDP with its checksum
//! cascade, ICMPv6 messages, the segment routing header, and NDP options.

use safebricks::buffer::{read_slice, write_slice, write_u8};
use safebricks::ethernet::{Ethernet, MacAddr, MacParseError, ETHER_TYPE_IPV6};
use safebricks::icmpv6::{
    parse_icmpv6_message, EchoRequest, Icmpv6, Icmpv6Message, Icmpv6Packet, Icmpv6Payload,
    Icmpv6Type, ICMPV6_TYPE_ECHO_REQUEST,
};
use safebricks::ipv6::Ipv6;
use safebricks::mbuf::MBuf;
use safebricks::ndp::{NdpOption, NdpOptionsIterator};
use safebricks::packet::{
    IpAddress, Ipv6Address, ParseError, RawPacket, PROTO_ICMPV6, PROTO_UDP,
};
use safebricks::srh::SegmentRouting;
use safebricks::udp::Udp;

/// Build a UDP-over-IPv6 frame: 14 bytes Ethernet, 40 bytes IPv6, 8 bytes
/// UDP header, then `payload`.
fn build_udp_frame(
    src_port: u16,
    dst_port: u16,
    payload: &[u8],
) -> MBuf {
    let total = 14 + 40 + 8 + payload.len();
    let mut m = MBuf::new(total as u32);
    let mut b = vec![0u8; total];
    // ethernet
    for i in 0..6 {
        b[i] = 0xaa;
        b[6 + i] = 0xbb;
    }
    b[12] = (ETHER_TYPE_IPV6 / 256) as u8;
    b[13] = (ETHER_TYPE_IPV6 % 256) as u8;
    // ipv6
    b[14] = 0x60;
    let plen = (8 + payload.len()) as u16;
    b[18] = (plen / 256) as u8;
    b[19] = (plen % 256) as u8;
    b[20] = PROTO_UDP;
    b[21] = 64;
    // udp
    b[54] = (src_port / 256) as u8;
    b[55] = (src_port % 256) as u8;
    b[56] = (dst_port / 256) as u8;
    b[57] = (dst_port % 256) as u8;
    b[58] = (plen / 256) as u8;
    b[59] = (plen % 256) as u8;
    for (i, p) in payload.iter().enumerate() {
        b[62 + i] = *p;
    }
    write_slice(&mut m, 0, &b).unwrap();
    m
}

fn frame_bytes(m: &MBuf) -> Vec<u8> {
    read_slice(m, 0, m.data_len()).unwrap()
}

#[test]
fn ethernet_field_accessors() {
    let m = build_udp_frame(7, 9, &[]);
    let eth = Ethernet::do_parse(RawPacket::from_mbuf(m)).unwrap();
    assert_eq!(eth.dst().octets(), [0xaa; 6]);
    assert_eq!(eth.src().octets(), [0xbb; 6]);
    assert_eq!(eth.ether_type().0, ETHER_TYPE_IPV6);
}

#[test]
fn ethernet_swap_addresses() {
    let m = build_udp_frame(7, 9, &[0xde, 0xad]);
    let before = frame_bytes(&m);
    let mut eth = Ethernet::do_parse(RawPacket::from_mbuf(m)).unwrap();
    eth.swap_addresses();
    assert_eq!(eth.dst().octets(), [0xbb; 6]);
    assert_eq!(eth.src().octets(), [0xaa; 6]);
    // only the two address fields changed
    let after = frame_bytes(&eth.envelope.mbuf);
    assert_eq!(&after[12..], &before[12..]);
}

#[test]
fn ethernet_setters() {
    let m = build_udp_frame(7, 9, &[]);
    let mut eth = Ethernet::do_parse(RawPacket::from_mbuf(m)).unwrap();
    let mac = MacAddr::new(1, 2, 3, 4, 5, 6);
    eth.set_src(mac);
    eth.set_dst(MacAddr::new_from_slice(&[9, 9, 9, 9, 9, 9, 77]));
    assert_eq!(eth.src().octets(), [1, 2, 3, 4, 5, 6]);
    assert_eq!(eth.dst().octets(), [9; 6]);
}

#[test]
fn ethernet_too_short_is_rejected() {
    let m = MBuf::new(10);
    match Ethernet::do_parse(RawPacket::from_mbuf(m)) {
        Err(ParseError::Buffer(_)) => {}
        _ => panic!("a 10-byte buffer holds no Ethernet header"),
    }
}

#[test]
fn push_remove_round_trip() {
    // push a header onto a raw payload, remove it, and get the original
    // bytes back byte for byte
    let mut m = MBuf::new(5);
    write_slice(&mut m, 0, &vec![1, 2, 3, 4, 5]).unwrap();
    let before = frame_bytes(&m);
    let eth = Ethernet::do_push(RawPacket::from_mbuf(m)).unwrap();
    assert_eq!(eth.envelope.mbuf.data_len(), 19);
    let raw = eth.remove().unwrap();
    let after = frame_bytes(&raw.mbuf);
    assert_eq!(before, after);
}

#[test]
fn ipv6_field_accessors() {
    let m = build_udp_frame(7, 9, &[1, 2]);
    let eth = Ethernet::do_parse(RawPacket::from_mbuf(m)).unwrap();
    let v6 = Ipv6::do_parse(eth).unwrap();
    assert_eq!(v6.version(), 6);
    assert_eq!(v6.dscp(), 0);
    assert_eq!(v6.ecn(), 0);
    assert_eq!(v6.flow_label(), 0);
    assert_eq!(v6.payload_length(), 10);
    assert_eq!(v6.next_header(), PROTO_UDP);
    assert_eq!(v6.hop_limit(), 64);
}

#[test]
fn ipv6_address_setters() {
    let m = build_udp_frame(7, 9, &[]);
    let eth = Ethernet::do_parse(RawPacket::from_mbuf(m)).unwrap();
    let mut v6 = Ipv6::do_parse(eth).unwrap();
    let mut a = [0u8; 16];
    a[15] = 1;
    v6.set_src(Ipv6Address(a));
    let mut b = [0u8; 16];
    b[0] = 0xfe;
    v6.set_dst(Ipv6Address(b));
    assert_eq!(v6.src(), Ipv6Address(a));
    assert_eq!(v6.dst(), Ipv6Address(b));
    v6.set_hop_limit(1);
    assert_eq!(v6.hop_limit(), 1);
    v6.set_next_header(PROTO_ICMPV6);
    assert_eq!(v6.next_header(), PROTO_ICMPV6);
}

#[test]
fn udp_field_accessors() {
    let m = build_udp_frame(1338, 53, &[0xff]);
    let eth = Ethernet::do_parse(RawPacket::from_mbuf(m)).unwrap();
    let v6 = Ipv6::do_parse(eth).unwrap();
    let mut udp = Udp::do_parse(v6).unwrap();
    assert_eq!(udp.src_port(), 1338);
    assert_eq!(udp.dst_port(), 53);
    assert_eq!(udp.length(), 9);
    udp.set_src_port(1024);
    udp.set_dst_port(80);
    assert_eq!(udp.src_port(), 1024);
    assert_eq!(udp.dst_port(), 80);
    let flow = udp.flow();
    assert_eq!(flow.src_port, 1024);
    assert_eq!(flow.dst_port, 80);
    assert_eq!(flow.protocol, PROTO_UDP);
    match flow.src_ip {
        IpAddress::V6(a) => assert_eq!(a, Ipv6Address([0; 16])),
        _ => panic!("a v6 flow"),
    }
}

#[test]
fn udp_checksum_exact_value() {
    // all-zero addresses and ports, empty payload: the pseudo header sums
    // to 8 (length) + 17 (protocol), the datagram sums to 8, so the
    // ones-complement checksum is !(33) = 0xffde
    let m = build_udp_frame(0, 0, &[]);
    let eth = Ethernet::do_parse(RawPacket::from_mbuf(m)).unwrap();
    let v6 = Ipv6::do_parse(eth).unwrap();
    let mut udp = Udp::do_parse(v6).unwrap();
    udp.cascade();
    assert_eq!(udp.checksum(), 0xffde);
}

#[test]
fn udp_no_checksum_writes_zero() {
    let m = build_udp_frame(5, 5, &[]);
    let eth = Ethernet::do_parse(RawPacket::from_mbuf(m)).unwrap();
    let v6 = Ipv6::do_parse(eth).unwrap();
    let mut udp = Udp::do_parse(v6).unwrap();
    udp.cascade();
    assert_ne!(udp.checksum(), 0);
    udp.no_checksum();
    assert_eq!(udp.checksum(), 0);
}

#[test]
fn udp_address_setters_keep_checksum_correct() {
    let m = build_udp_frame(7, 9, &[1, 2]);
    let eth = Ethernet::do_parse(RawPacket::from_mbuf(m)).unwrap();
    let v6 = Ipv6::do_parse(eth).unwrap();
    let mut udp = Udp::do_parse(v6).unwrap();
    udp.cascade();
    let mut a = [0u8; 16];
    a[15] = 0x11;
    udp.set_src_ip(Ipv6Address(a));
    let mut b = [0u8; 16];
    b[15] = 0x22;
    udp.set_dst_ip(Ipv6Address(b));
    assert_eq!(udp.envelope.src(), Ipv6Address(a));
    assert_eq!(udp.envelope.dst(), Ipv6Address(b));
    // the refreshed checksum equals the one a full cascade computes
    let refreshed = udp.checksum();
    udp.cascade();
    assert_eq!(udp.checksum(), refreshed);
}

#[test]
fn cascade_idempotence() {
    let m = build_udp_frame(1338, 53, &[0xde, 0xad, 0xbe, 0xef]);
    let eth = Ethernet::do_parse(RawPacket::from_mbuf(m)).unwrap();
    let v6 = Ipv6::do_parse(eth).unwrap();
    let mut udp = Udp::do_parse(v6).unwrap();
    udp.cascade();
    let once = frame_bytes(&udp.envelope.envelope.envelope.mbuf);
    udp.cascade();
    let twice = frame_bytes(&udp.envelope.envelope.envelope.mbuf);
    assert_eq!(once, twice);
}

#[test]
fn cascade_restores_original_checksum() {
    // a packet whose stored fields are already correct is untouched by a
    // cascade, original checksum included
    let m = build_udp_frame(7, 9, &[1, 2, 3, 4]);
    let eth = Ethernet::do_parse(RawPacket::from_mbuf(m)).unwrap();
    let v6 = Ipv6::do_parse(eth).unwrap();
    let mut udp = Udp::do_parse(v6).unwrap();
    udp.cascade();
    let correct = frame_bytes(&udp.envelope.envelope.envelope.mbuf);
    let original_checksum = udp.checksum();
    udp.cascade();
    assert_eq!(udp.checksum(), original_checksum);
    assert_eq!(frame_bytes(&udp.envelope.envelope.envelope.mbuf), correct);
}

/// Build an ICMPv6 echo request frame with the given payload data bytes.
fn build_echo_frame(identifier: u16, seq_no: u16, data: &[u8]) -> MBuf {
    let total = 14 + 40 + 4 + 4 + data.len();
    let mut m = MBuf::new(total as u32);
    let mut b = vec![0u8; total];
    b[12] = (ETHER_TYPE_IPV6 / 256) as u8;
    b[13] = (ETHER_TYPE_IPV6 % 256) as u8;
    b[14] = 0x60;
    let plen = (8 + data.len()) as u16;
    b[18] = (plen / 256) as u8;
    b[19] = (plen % 256) as u8;
    b[20] = PROTO_ICMPV6;
    b[21] = 255;
    b[54] = ICMPV6_TYPE_ECHO_REQUEST;
    b[58] = (identifier / 256) as u8;
    b[59] = (identifier % 256) as u8;
    b[60] = (seq_no / 256) as u8;
    b[61] = (seq_no % 256) as u8;
    for (i, p) in data.iter().enumerate() {
        b[62 + i] = *p;
    }
    write_slice(&mut m, 0, &b).unwrap();
    m
}

#[test]
fn size_of_echo_request() {
    assert_eq!(4, <EchoRequest as Icmpv6Payload>::size());
}

#[test]
fn icmpv6_parse_dispatches_echo_request() {
    let m = build_echo_frame(0x1234, 7, &[1, 2, 3]);
    let eth = Ethernet::do_parse(RawPacket::from_mbuf(m)).unwrap();
    let v6 = Ipv6::do_parse(eth).unwrap();
    match parse_icmpv6_message(v6).unwrap() {
        Icmpv6Message::EchoRequest(mut echo) => {
            assert_eq!(echo.msg_type(), Icmpv6Type::new(ICMPV6_TYPE_ECHO_REQUEST));
            assert_eq!(echo.code(), 0);
            assert_eq!(echo.identifier(), 0x1234);
            assert_eq!(echo.seq_no(), 7);
            assert_eq!(echo.data(), vec![1, 2, 3]);
            echo.set_identifier(42);
            echo.set_seq_no(43);
            assert_eq!(echo.identifier(), 42);
            assert_eq!(echo.seq_no(), 43);
            echo.set_data(&vec![9, 9, 9, 9, 9]).unwrap();
            assert_eq!(echo.data(), vec![9, 9, 9, 9, 9]);
        }
        _ => panic!("type 128 is an echo request"),
    }
}

#[test]
fn icmpv6_rejects_non_icmpv6() {
    let m = build_udp_frame(1, 2, &[]);
    let eth = Ethernet::do_parse(RawPacket::from_mbuf(m)).unwrap();
    let v6 = Ipv6::do_parse(eth).unwrap();
    assert!(matches!(parse_icmpv6_message(v6), Err(ParseError::NotIcmpv6)));
}

#[test]
fn icmpv6_checksum_changes_and_settles() {
    let m = build_echo_frame(1, 1, &[]);
    let eth = Ethernet::do_parse(RawPacket::from_mbuf(m)).unwrap();
    let v6 = Ipv6::do_parse(eth).unwrap();
    let mut unit: Icmpv6<()> = Icmpv6::do_parse(v6).unwrap();
    unit.compute_checksum();
    let first = unit.checksum();
    assert_ne!(first, 0xffff - 0);
    unit.compute_checksum();
    assert_eq!(unit.checksum(), first);
}

#[test]
fn icmpv6_push_remove_round_trip() {
    // pushing a typed message and removing it restores the buffer byte
    // for byte, payload included
    let m = build_udp_frame(1, 2, &[0xaa, 0xbb]);
    let eth = Ethernet::do_parse(RawPacket::from_mbuf(m)).unwrap();
    let v6 = Ipv6::do_parse(eth).unwrap();
    let before = frame_bytes(&v6.envelope.envelope.mbuf);
    let echo: Icmpv6<EchoRequest> = Icmpv6::do_push(v6).unwrap();
    assert_eq!(echo.envelope.envelope.envelope.mbuf.data_len(), before.len() + 8);
    let v6 = echo.remove().unwrap();
    assert_eq!(frame_bytes(&v6.envelope.envelope.mbuf), before);
}

#[test]
fn ipv6_traffic_class_setters() {
    let m = build_udp_frame(7, 9, &[]);
    let eth = Ethernet::do_parse(RawPacket::from_mbuf(m)).unwrap();
    let mut v6 = Ipv6::do_parse(eth).unwrap();
    v6.set_dscp(46);
    assert_eq!(v6.dscp(), 46);
    v6.set_ecn(2);
    assert_eq!(v6.ecn(), 2);
    assert_eq!(v6.dscp(), 46);
    v6.set_flow_label(0xabcde);
    assert_eq!(v6.flow_label(), 0xabcde);
    assert_eq!(v6.dscp(), 46);
    assert_eq!(v6.ecn(), 2);
    assert_eq!(v6.version(), 6);
}

#[test]
fn icmpv6_push_stamps_type() {
    let m = MBuf::new(54);
    let mut b = vec![0u8; 54];
    b[12] = 0x86;
    b[13] = 0xdd;
    b[14] = 0x60;
    b[20] = PROTO_ICMPV6;
    let mut m = m;
    write_slice(&mut m, 0, &b).unwrap();
    let eth = Ethernet::do_parse(RawPacket::from_mbuf(m)).unwrap();
    let v6 = Ipv6::do_parse(eth).unwrap();
    let echo: Icmpv6<EchoRequest> = Icmpv6::do_push(v6).unwrap();
    assert_eq!(echo.msg_type().0, ICMPV6_TYPE_ECHO_REQUEST);
    assert_eq!(echo.code(), 0);
}

/// Build a segment routing frame with the given segment count byte values.
fn build_srh_frame(hdr_ext_len: u8, last_entry: u8, n_segments: usize) -> MBuf {
    let total = 14 + 40 + 8 + 16 * n_segments;
    let mut m = MBuf::new(total as u32);
    let mut b = vec![0u8; total];
    b[12] = 0x86;
    b[13] = 0xdd;
    b[14] = 0x60;
    b[20] = 43;
    b[54] = PROTO_UDP;
    b[55] = hdr_ext_len;
    b[56] = 4;
    b[57] = 0;
    b[58] = last_entry;
    for s in 0..n_segments {
        b[62 + 16 * s + 15] = (s + 1) as u8;
    }
    write_slice(&mut m, 0, &b).unwrap();
    m
}

#[test]
fn srh_parse_and_accessors() {
    let m = build_srh_frame(4, 1, 2);
    let eth = Ethernet::do_parse(RawPacket::from_mbuf(m)).unwrap();
    let v6 = Ipv6::do_parse(eth).unwrap();
    let srh = SegmentRouting::do_parse(v6).unwrap();
    assert_eq!(srh.next_header(), PROTO_UDP);
    assert_eq!(srh.hdr_ext_len(), 4);
    assert_eq!(srh.routing_type(), 4);
    assert_eq!(srh.segments_left(), 0);
    assert_eq!(srh.last_entry(), 1);
    let segments = srh.segments();
    assert_eq!(segments.len(), 2);
    assert_eq!(segments[0].0[15], 1);
    assert_eq!(segments[1].0[15], 2);
}

#[test]
fn srh_inconsistent_length_rejected() {
    // a last-entry byte implying two segments against an extension length
    // of one segment is inconsistent
    let m = build_srh_frame(2, 1, 2);
    let eth = Ethernet::do_parse(RawPacket::from_mbuf(m)).unwrap();
    let v6 = Ipv6::do_parse(eth).unwrap();
    assert!(matches!(
        SegmentRouting::do_parse(v6),
        Err(ParseError::InconsistentSegmentList)
    ));
}

#[test]
fn srh_set_segments_rewrites_lengths() {
    let m = build_srh_frame(2, 0, 1);
    let eth = Ethernet::do_parse(RawPacket::from_mbuf(m)).unwrap();
    let v6 = Ipv6::do_parse(eth).unwrap();
    let mut srh = SegmentRouting::do_parse(v6).unwrap();
    let mut a = [0u8; 16];
    a[0] = 1;
    let mut b = [0u8; 16];
    b[0] = 2;
    let mut c = [0u8; 16];
    c[0] = 3;
    srh.set_segments(&vec![Ipv6Address(a), Ipv6Address(b), Ipv6Address(c)]).unwrap();
    assert_eq!(srh.hdr_ext_len(), 6);
    assert_eq!(srh.last_entry(), 2);
    let segments = srh.segments();
    assert_eq!(segments.len(), 3);
    assert_eq!(segments[2], Ipv6Address(c));
    // an empty list is refused
    assert!(srh.set_segments(&Vec::new()).is_err());
}

#[test]
fn srh_set_dst_rewrites_segment_zero() {
    let m = build_srh_frame(2, 0, 1);
    let eth = Ethernet::do_parse(RawPacket::from_mbuf(m)).unwrap();
    let v6 = Ipv6::do_parse(eth).unwrap();
    let mut srh = SegmentRouting::do_parse(v6).unwrap();
    let mut final_dst = [0u8; 16];
    final_dst[15] = 0x42;
    srh.set_dst(Ipv6Address(final_dst));
    assert_eq!(srh.segments()[0], Ipv6Address(final_dst));
    // with no segments left to visit, the envelope's destination follows
    assert_eq!(srh.envelope.dst(), Ipv6Address(final_dst));
}

#[test]
fn srh_push_writes_default_header() {
    let m = build_udp_frame(1, 2, &[]);
    let eth = Ethernet::do_parse(RawPacket::from_mbuf(m)).unwrap();
    let v6 = Ipv6::do_parse(eth).unwrap();
    let srh = SegmentRouting::do_push(v6).unwrap();
    assert_eq!(srh.hdr_ext_len(), 2);
    assert_eq!(srh.routing_type(), 4);
    assert_eq!(srh.last_entry(), 0);
    assert_eq!(srh.segments().len(), 1);
    assert_eq!(srh.segments()[0], Ipv6Address([0; 16]));
}

#[test]
fn srh_tag_round_trip() {
    let m = build_srh_frame(2, 0, 1);
    let eth = Ethernet::do_parse(RawPacket::from_mbuf(m)).unwrap();
    let v6 = Ipv6::do_parse(eth).unwrap();
    let mut srh = SegmentRouting::do_parse(v6).unwrap();
    srh.set_tag(0xbeef);
    assert_eq!(srh.tag(), 0xbeef);
    srh.set_segments_left(1);
    assert_eq!(srh.segments_left(), 1);
}

#[test]
fn srh_pseudo_header_follows_final_destination() {
    // rewriting the route's final destination must happen before an upper
    // layer computes its checksum: the pseudo header reads segment 0
    let m = build_srh_frame(2, 0, 1);
    let eth = Ethernet::do_parse(RawPacket::from_mbuf(m)).unwrap();
    let v6 = Ipv6::do_parse(eth).unwrap();
    let mut srh = SegmentRouting::do_parse(v6).unwrap();
    let before = srh.pseudo_header_sum(8, PROTO_UDP);
    let mut dst = [0u8; 16];
    dst[15] = 0xff;
    srh.set_dst(Ipv6Address(dst));
    let after = srh.pseudo_header_sum(8, PROTO_UDP);
    // the old segment 0 ended in 0x01, the new one in 0xff
    assert_eq!(after, before - 1 + 0xff);
}

#[test]
fn ndp_options_walk() {
    let mut m = MBuf::new(24);
    // a source link-layer option (type 1, length 1) then an undefined
    // option (type 9, length 2)
    let b = vec![
        1, 1, 0xaa, 0xbb, 0xcc, 0xdd, 0xee, 0xff, //
        9, 2, 0, 0, 0, 0, 0, 0, 0, 0, 0, 0, 0, 0, 0, 0,
    ];
    write_slice(&mut m, 0, &b).unwrap();
    let mut it = NdpOptionsIterator::new(0);
    match it.next_option(&m).unwrap() {
        Some(NdpOption::SourceLinkLayerAddress(lla)) => {
            assert_eq!(lla.length, 1);
            assert_eq!(lla.addr.octets(), [0xaa, 0xbb, 0xcc, 0xdd, 0xee, 0xff]);
        }
        other => panic!("expected a source link-layer option, got {:?}", other.is_some()),
    }
    match it.next_option(&m).unwrap() {
        Some(NdpOption::Undefined(t, l)) => {
            assert_eq!(t, 9);
            assert_eq!(l, 2);
        }
        _ => panic!("expected an undefined option"),
    }
    // the walk has consumed the whole buffer: the next read runs out of it
    assert!(matches!(it.next_option(&m), Err(ParseError::Buffer(_))));
    // a cursor past the live data ends the walk
    let mut past = NdpOptionsIterator::new(25);
    assert!(past.next_option(&m).unwrap().is_none());
}

#[test]
fn ndp_zero_length_option_rejected() {
    let mut m = MBuf::new(8);
    write_slice(&mut m, 0, &vec![1, 0, 0, 0, 0, 0, 0, 0]).unwrap();
    let mut it = NdpOptionsIterator::new(0);
    assert!(matches!(it.next_option(&m), Err(ParseError::ZeroLengthOption)));
}

#[test]
fn mac_addr_parse_text() {
    assert_eq!(
        MacAddr::parse_text(&b"aa:bb:cc:dd:ee:ff".to_vec()),
        Ok(MacAddr::new(0xaa, 0xbb, 0xcc, 0xdd, 0xee, 0xff))
    );
    assert_eq!(
        MacAddr::parse_text(&b"01-23-45-67-89-AB".to_vec()),
        Ok(MacAddr::new(0x01, 0x23, 0x45, 0x67, 0x89, 0xab))
    );
    assert_eq!(
        MacAddr::parse_text(&b"0123456789ab".to_vec()),
        Ok(MacAddr::new(0x01, 0x23, 0x45, 0x67, 0x89, 0xab))
    );
    assert_eq!(MacAddr::parse_text(&b"aa:bb:cc:dd:ee".to_vec()), Err(MacParseError));
    assert_eq!(MacAddr::parse_text(&b"aa:bb:cc:dd:ee:fg".to_vec()), Err(MacParseError));
    assert_eq!(MacAddr::parse_text(&b"".to_vec()), Err(MacParseError));
}

#[test]
fn mac_addr_parse_agrees_with_hex_crate() {
    for text in ["0123456789ab", "deadbeef0102", "ffffffffffff"] {
        let ours = MacAddr::parse_text(&text.as_bytes().to_vec()).unwrap();
        let reference = hex::decode(text).unwrap();
        assert_eq!(ours.octets().to_vec(), reference);
    }
}

#[test]
fn icmpv6_packet_trait_accessors() {
    let m = build_echo_frame(3, 4, &[]);
    let eth = Ethernet::do_parse(RawPacket::from_mbuf(m)).unwrap();
    let v6 = Ipv6::do_parse(eth).unwrap();
    let unit: Icmpv6<()> = Icmpv6::do_parse(v6).unwrap();
    assert_eq!(unit.message_type().0, ICMPV6_TYPE_ECHO_REQUEST);
    assert_eq!(unit.message_code(), 0);
}

#[test]
fn mac_addr_equality() {
    let a = MacAddr::new(1, 2, 3, 4, 5, 6);
    let b = MacAddr::new(1, 2, 3, 4, 5, 6);
    let c = MacAddr::new(1, 2, 3, 4, 5, 7);
    assert_eq!(a, b);
    assert_ne!(a, c);
}
