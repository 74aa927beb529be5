//! The verified part of the ESP framing used by the IPsec pipelines: the
//! length rules and the byte layout of an ESP packet.  The ciphers and
//! digests themselves are opaque outside calls made by the host program;
//! everything here is what can be checked of a frame before and after
//! those calls.

use vstd::prelude::*;

verus! {

use crate::buffer::{be16, be32};
use crate::packet::{Flow, IpAddress, PROTO_TCP};

/// Errors of the ESP framing and crypto shell.
#[derive(Debug, PartialEq, Eq, Structural)]
pub enum CryptoError {
    /// The authentication tag did not match.
    HmacMismatch,
    /// The packet length breaks the framing rules.
    PktlenError,
    /// The cipher failed to encrypt.
    AESEncryptError,
    /// The cipher failed to decrypt.
    AESDecryptError,
}

/// Largest packet the framing handles.
pub const MAX_PKT_SIZE: usize = 65535;

/// Size of the ESP header.
pub const ESP_HEADER_LENGTH: usize = 8;

/// Size of the cipher-block-chaining initialization vector.
pub const AES_CBC_IV_LENGTH: usize = 16;

/// Size of the truncated HMAC trailer.
pub const ESP_HMAC_LEN: usize = 12;

/// Size of an IPv4 header in the inner packet.
pub const IP_HEADER_LENGTH: usize = 20;

/// Size of the integrity value of the SHA-256 scheme.
pub const ICV_LEN_SHA256: usize = 16;

/// Size of the Galois-counter-mode initialization vector.
pub const AES_GCM_IV_LENGTH: usize = 16;

/// Size of the integrity value of the GCM-128 scheme.
pub const ICV_LEN_GCM128: usize = 16;

/// Whether a cleartext length is acceptable to the CBC encryptor: at least
/// one block, block-aligned, and small enough that the framed packet still
/// fits.
pub open spec fn cbc_encrypt_len_ok(pktlen: int) -> bool {
    &&& pktlen >= 16
    &&& pktlen % 16 == 0
    &&& pktlen <= MAX_PKT_SIZE - ESP_HEADER_LENGTH - AES_CBC_IV_LENGTH - ICV_LEN_SHA256
}

/// Check the CBC encryptor's length rules.
pub fn check_cbc_encrypt_len(pktlen: usize) -> (r: Result<(), CryptoError>)
    ensures
        match r {
            Ok(()) => cbc_encrypt_len_ok(pktlen as int),
            Err(e) => !cbc_encrypt_len_ok(pktlen as int) && e == (CryptoError::PktlenError),
        },
{
    if pktlen < 16 || pktlen % 16 != 0 {
        return Err(CryptoError::PktlenError);
    }
    if pktlen > MAX_PKT_SIZE - ESP_HEADER_LENGTH - AES_CBC_IV_LENGTH - ICV_LEN_SHA256 {
        return Err(CryptoError::PktlenError);
    }
    Ok(())
}

/// Whether a framed length is acceptable to the CBC decryptor: at least
/// the header, the IV and the integrity value.
pub open spec fn cbc_decrypt_len_ok(pktlen: int) -> bool {
    pktlen >= ESP_HEADER_LENGTH + AES_CBC_IV_LENGTH + ICV_LEN_SHA256
}

/// Check the CBC decryptor's length rule.
pub fn check_cbc_decrypt_len(pktlen: usize) -> (r: Result<(), CryptoError>)
    ensures
        match r {
            Ok(()) => cbc_decrypt_len_ok(pktlen as int),
            Err(e) => !cbc_decrypt_len_ok(pktlen as int) && e == (CryptoError::PktlenError),
        },
{
    if pktlen < ESP_HEADER_LENGTH + AES_CBC_IV_LENGTH + ICV_LEN_SHA256 {
        Err(CryptoError::PktlenError)
    } else {
        Ok(())
    }
}

/// Length of a CBC-framed packet: header, IV, ciphertext, integrity
/// value.
pub fn cbc_output_len(pktlen: usize) -> (r: usize)
    requires
        cbc_encrypt_len_ok(pktlen as int),
    ensures
        r == pktlen + ESP_HEADER_LENGTH + AES_CBC_IV_LENGTH + ICV_LEN_SHA256,
{
    pktlen + ESP_HEADER_LENGTH + AES_CBC_IV_LENGTH + ICV_LEN_SHA256
}

/// Length of a GCM-framed packet: header, IV, ciphertext, integrity
/// value.
pub fn gcm_output_len(pktlen: usize) -> (r: Result<usize, CryptoError>)
    ensures
        match r {
            Ok(n) => {
                &&& pktlen <= MAX_PKT_SIZE - ESP_HEADER_LENGTH - AES_GCM_IV_LENGTH
                    - ICV_LEN_GCM128
                &&& n == pktlen + ESP_HEADER_LENGTH + AES_GCM_IV_LENGTH + ICV_LEN_GCM128
            },
            Err(e) => {
                &&& pktlen > MAX_PKT_SIZE - ESP_HEADER_LENGTH - AES_GCM_IV_LENGTH - ICV_LEN_GCM128
                &&& e == (CryptoError::PktlenError)
            },
        },
{
    if pktlen > MAX_PKT_SIZE - ESP_HEADER_LENGTH - AES_GCM_IV_LENGTH - ICV_LEN_GCM128 {
        Err(CryptoError::PktlenError)
    } else {
        Ok(pktlen + ESP_HEADER_LENGTH + AES_GCM_IV_LENGTH + ICV_LEN_GCM128)
    }
}

/// Length of the cleartext recovered from a GCM frame.
pub fn gcm_cleartext_len(pktlen: usize) -> (r: Result<usize, CryptoError>)
    ensures
        match r {
            Ok(n) => {
                &&& pktlen >= ESP_HEADER_LENGTH + AES_GCM_IV_LENGTH + ICV_LEN_GCM128
                &&& n == pktlen - ESP_HEADER_LENGTH - AES_GCM_IV_LENGTH - ICV_LEN_GCM128
            },
            Err(e) => {
                &&& pktlen < ESP_HEADER_LENGTH + AES_GCM_IV_LENGTH + ICV_LEN_GCM128
                &&& e == (CryptoError::PktlenError)
            },
        },
{
    if pktlen < ESP_HEADER_LENGTH + AES_GCM_IV_LENGTH + ICV_LEN_GCM128 {
        Err(CryptoError::PktlenError)
    } else {
        Ok(pktlen - ESP_HEADER_LENGTH - AES_GCM_IV_LENGTH - ICV_LEN_GCM128)
    }
}

/// Assemble the framed packet's prefix: the ESP header followed by the
/// initialization vector.
pub fn esp_assemble_prefix(esphdr: &Vec<u8>, iv: &Vec<u8>) -> (r: Vec<u8>)
    ensures
        r@ == esphdr@ + iv@,
{
    let mut out: Vec<u8> = Vec::new();
    let mut i: usize = 0;
    while i < esphdr.len()
        invariant
            i <= esphdr@.len(),
            out@ == esphdr@.take(i as int),
        decreases esphdr@.len() - i,
    {
        out.push(esphdr[i]);
        proof {
            assert(out@ =~= esphdr@.take(i + 1));
        }
        i = i + 1;
    }
    let mut j: usize = 0;
    while j < iv.len()
        invariant
            j <= iv@.len(),
            out@ == esphdr@.take(esphdr@.len() as int) + iv@.take(j as int),
        decreases iv@.len() - j,
    {
        out.push(iv[j]);
        proof {
            assert(out@ =~= esphdr@.take(esphdr@.len() as int) + iv@.take(j + 1));
        }
        j = j + 1;
    }
    proof {
        assert(out@ =~= esphdr@ + iv@);
    }
    out
}

/// Constant-shape comparison of two digests, as the decryptor's integrity
/// check.
pub fn digest_matches(a: &Vec<u8>, b: &Vec<u8>) -> (r: bool)
    ensures
        r == (a@ == b@),
{
    if a.len() != b.len() {
        proof {
            assert(a@ != b@);
        }
        return false;
    }
    let mut i: usize = 0;
    while i < a.len()
        invariant
            i <= a@.len(),
            a@.len() == b@.len(),
            forall|j: int| 0 <= j < i ==> a@[j] == #[trigger] b@[j],
        decreases a@.len() - i,
    {
        if a[i] != b[i] {
            return false;
        }
        i = i + 1;
    }
    proof {
        assert(a@ =~= b@);
    }
    true
}

/// Byte offset of the protocol field in an IPv4 header.
pub const IPV4_PROTO_OFF: usize = 9;

/// Byte offset of the source address in an IPv4 header.
pub const IPV4_SRC_OFF: usize = 12;

/// Byte offset of the destination address in an IPv4 header.
pub const IPV4_DST_OFF: usize = 16;

/// The transport five-tuple of a cleartext IPv4/TCP packet, read straight
/// from its bytes: addresses from the IP header, ports from the TCP header
/// that follows it.
pub fn get_flow(pkt: &Vec<u8>) -> (r: Flow)
    requires
        pkt@.len() >= IP_HEADER_LENGTH + 4,
    ensures
        r.src_ip == IpAddress::V4(be32(pkt@, IPV4_SRC_OFF as int)),
        r.dst_ip == IpAddress::V4(be32(pkt@, IPV4_DST_OFF as int)),
        r.src_port == be16(pkt@, IP_HEADER_LENGTH as int),
        r.dst_port == be16(pkt@, IP_HEADER_LENGTH as int + 2),
        r.protocol == PROTO_TCP,
{
    Flow {
        src_ip: IpAddress::V4(read32(pkt, IPV4_SRC_OFF)),
        dst_ip: IpAddress::V4(read32(pkt, IPV4_DST_OFF)),
        src_port: (pkt[IP_HEADER_LENGTH] as u16) * 256 + (pkt[IP_HEADER_LENGTH + 1] as u16),
        dst_port: (pkt[IP_HEADER_LENGTH + 2] as u16) * 256 + (pkt[IP_HEADER_LENGTH + 3] as u16),
        protocol: PROTO_TCP,
    }
}

/// The source address of a cleartext IPv4 packet.
pub fn get_src_ip(pkt: &Vec<u8>) -> (r: u32)
    requires
        pkt@.len() >= IP_HEADER_LENGTH,
    ensures
        r == be32(pkt@, IPV4_SRC_OFF as int),
{
    read32(pkt, IPV4_SRC_OFF)
}

/// Overwrite the destination address of a cleartext IPv4 packet.
pub fn set_dst_ip(pkt: &mut Vec<u8>, dst_ip: u32)
    requires
        old(pkt)@.len() >= IP_HEADER_LENGTH,
    ensures
        final(pkt)@.len() == old(pkt)@.len(),
        be32(final(pkt)@, IPV4_DST_OFF as int) == dst_ip,
        forall|p: int|
            0 <= p < old(pkt)@.len() && !(IPV4_DST_OFF <= p < IPV4_DST_OFF + 4)
                ==> final(pkt)@[p] == #[trigger] old(pkt)@[p],
{
    write32(pkt, IPV4_DST_OFF, dst_ip);
}

/// Overwrite the five-tuple of a cleartext IPv4/TCP packet: both
/// addresses, both ports, and the protocol field.  A non-IPv4 address in
/// the flow leaves the corresponding field alone.
pub fn set_flow(pkt: &mut Vec<u8>, flow: &Flow)
    requires
        old(pkt)@.len() >= IP_HEADER_LENGTH + 4,
    ensures
        final(pkt)@.len() == old(pkt)@.len(),
        flow.src_ip matches IpAddress::V4(a) ==> be32(final(pkt)@, IPV4_SRC_OFF as int) == a,
        flow.dst_ip matches IpAddress::V4(a) ==> be32(final(pkt)@, IPV4_DST_OFF as int) == a,
        be16(final(pkt)@, IP_HEADER_LENGTH as int) == flow.src_port,
        be16(final(pkt)@, IP_HEADER_LENGTH as int + 2) == flow.dst_port,
        final(pkt)@[IPV4_PROTO_OFF as int] == PROTO_TCP,
        forall|p: int|
            0 <= p < old(pkt)@.len() && p != IPV4_PROTO_OFF && !(IPV4_SRC_OFF <= p
                < IP_HEADER_LENGTH + 4) ==> final(pkt)@[p] == #[trigger] old(pkt)@[p],
        flow.src_ip matches IpAddress::V6(_) ==> forall|p: int|
            IPV4_SRC_OFF <= p < IPV4_DST_OFF ==> final(pkt)@[p] == #[trigger] old(pkt)@[p],
        flow.dst_ip matches IpAddress::V6(_) ==> forall|p: int|
            IPV4_DST_OFF <= p < IPV4_DST_OFF + 4 ==> final(pkt)@[p] == #[trigger] old(pkt)@[p],
{
    match flow.src_ip {
        IpAddress::V4(a) => {
            write32(pkt, IPV4_SRC_OFF, a);
        }
        IpAddress::V6(_) => {}
    }
    match flow.dst_ip {
        IpAddress::V4(a) => {
            write32(pkt, IPV4_DST_OFF, a);
        }
        IpAddress::V6(_) => {}
    }
    pkt.set(IP_HEADER_LENGTH, (flow.src_port / 256) as u8);
    pkt.set(IP_HEADER_LENGTH + 1, (flow.src_port % 256) as u8);
    pkt.set(IP_HEADER_LENGTH + 2, (flow.dst_port / 256) as u8);
    pkt.set(IP_HEADER_LENGTH + 3, (flow.dst_port % 256) as u8);
    pkt.set(IPV4_PROTO_OFF, PROTO_TCP);
    proof {
        vstd::arithmetic::div_mod::lemma_fundamental_div_mod(flow.src_port as int, 256);
        vstd::arithmetic::div_mod::lemma_fundamental_div_mod(flow.dst_port as int, 256);
    }
}

/// Read the 32-bit big-endian value at `off`.
fn read32(pkt: &Vec<u8>, off: usize) -> (r: u32)
    requires
        off + 4 <= pkt@.len(),
    ensures
        r == be32(pkt@, off as int),
{
    let n: usize = pkt.len();
    proof {
        assert(off + 4 <= n);
    }
    (pkt[off] as u32) * 0x1000000 + (pkt[off + 1] as u32) * 0x10000 + (pkt[off + 2] as u32)
        * 0x100 + (pkt[off + 3] as u32)
}

/// Write the 32-bit value `v` at `off` in big-endian order.
fn write32(pkt: &mut Vec<u8>, off: usize, v: u32)
    requires
        off + 4 <= old(pkt)@.len(),
    ensures
        final(pkt)@.len() == old(pkt)@.len(),
        be32(final(pkt)@, off as int) == v,
        forall|p: int|
            0 <= p < old(pkt)@.len() && !(off <= p < off + 4) ==> final(pkt)@[p] == #[trigger] old(
                pkt,
            )@[p],
{
    let n: usize = pkt.len();
    proof {
        assert(off + 4 <= n);
    }
    pkt.set(off, (v / 0x1000000) as u8);
    pkt.set(off + 1, (v / 0x10000 % 0x100) as u8);
    pkt.set(off + 2, (v / 0x100 % 0x100) as u8);
    pkt.set(off + 3, (v % 0x100) as u8);
    proof {
        assert(v / 0x1000000 * 0x1000000 + v / 0x10000 % 0x100 * 0x10000 + v / 0x100 % 0x100
            * 0x100 + v % 0x100 == v) by (bit_vector);
    }
}

} // verus!
