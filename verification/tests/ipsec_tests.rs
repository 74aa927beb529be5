//! Tests of the ESP framing rules and of the hash used by the Maglev
//! table.

use safebricks::ipsec::{
    cbc_output_len, check_cbc_decrypt_len, check_cbc_encrypt_len, digest_matches,
    esp_assemble_prefix, get_flow, get_src_ip, gcm_cleartext_len, gcm_output_len, set_dst_ip,
    set_flow, CryptoError,
};
use safebricks::packet::{Flow, IpAddress};
use safebricks::maglev::{fnv1a, FNV_OFFSET_BASIS};

#[test]
fn cbc_encrypt_length_rules() {
    assert_eq!(check_cbc_encrypt_len(16), Ok(()));
    assert_eq!(check_cbc_encrypt_len(64), Ok(()));
    // below one block
    assert_eq!(check_cbc_encrypt_len(8), Err(CryptoError::PktlenError));
    // not block-aligned
    assert_eq!(check_cbc_encrypt_len(17), Err(CryptoError::PktlenError));
    // too large once framed
    assert_eq!(check_cbc_encrypt_len(65535), Err(CryptoError::PktlenError));
}

#[test]
fn cbc_framed_length() {
    // header 8 + IV 16 + ciphertext + integrity 16
    assert_eq!(cbc_output_len(64), 104);
}

#[test]
fn cbc_decrypt_length_rules() {
    // header 8 + IV 16 + integrity 16
    assert_eq!(check_cbc_decrypt_len(40), Ok(()));
    assert_eq!(check_cbc_decrypt_len(39), Err(CryptoError::PktlenError));
}

#[test]
fn gcm_length_rules() {
    assert_eq!(gcm_output_len(100), Ok(140));
    assert_eq!(gcm_cleartext_len(140), Ok(100));
    assert_eq!(gcm_cleartext_len(10), Err(CryptoError::PktlenError));
    assert!(gcm_output_len(65535).is_err());
}

#[test]
fn esp_prefix_layout() {
    let hdr = vec![1, 2, 3, 4, 5, 6, 7, 8];
    let iv = vec![9; 16];
    let prefix = esp_assemble_prefix(&hdr, &iv);
    assert_eq!(prefix.len(), 24);
    assert_eq!(&prefix[..8], &hdr[..]);
    assert_eq!(&prefix[8..], &iv[..]);
}

#[test]
fn digest_comparison() {
    assert!(digest_matches(&vec![1, 2, 3], &vec![1, 2, 3]));
    assert!(!digest_matches(&vec![1, 2, 3], &vec![1, 2, 4]));
    assert!(!digest_matches(&vec![1, 2, 3], &vec![1, 2]));
    assert!(digest_matches(&Vec::new(), &Vec::new()));
}

#[test]
fn flow_bytes_round_trip() {
    // a minimal cleartext IPv4/TCP packet: 20 header bytes then ports
    let mut pkt = vec![0u8; 24];
    pkt[12..16].copy_from_slice(&[10, 0, 0, 2]);
    pkt[16..20].copy_from_slice(&[8, 8, 8, 8]);
    pkt[20] = (5001u16 / 256) as u8;
    pkt[21] = (5001u16 % 256) as u8;
    pkt[23] = 80;
    let flow = get_flow(&pkt);
    assert_eq!(flow.src_ip, IpAddress::V4(0x0a000002));
    assert_eq!(flow.dst_ip, IpAddress::V4(0x08080808));
    assert_eq!(flow.src_port, 5001);
    assert_eq!(flow.dst_port, 80);
    assert_eq!(get_src_ip(&pkt), 0x0a000002);

    set_dst_ip(&mut pkt, 0x0a000003);
    assert_eq!(get_flow(&pkt).dst_ip, IpAddress::V4(0x0a000003));

    let rewritten = Flow::new(IpAddress::V4(0x0a000001), IpAddress::V4(0x01020304), 1024, 443, 6);
    set_flow(&mut pkt, &rewritten);
    assert_eq!(get_flow(&pkt), rewritten);
    assert_eq!(pkt[9], 6);
}

#[test]
fn fnv1a_known_values() {
    // the empty string hashes to the offset basis
    assert_eq!(fnv1a(&Vec::new()), FNV_OFFSET_BASIS);
    // published 64-bit FNV-1a test vectors
    assert_eq!(fnv1a(&b"a".to_vec()), 0xaf63dc4c8601ec8c);
    assert_eq!(fnv1a(&b"foobar".to_vec()), 0x85944171f73967e8);
}
