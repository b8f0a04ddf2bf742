//! Decoders for the link, ARP, IPv4, UDP and TCP headers.
//!
//! Each header is a plain value read field by field from the frame, every
//! multi-byte field converted from network byte order. A decoder first checks
//! that the whole header lies inside the frame and fails with
//! [`PacketError::OutOfBounds`] when it does not.

use vstd::prelude::*;
use crate::packet::{
    be16, be32, check_bounds, in_bounds, mac_at, read_be16, read_be32, read_mac, store_be16,
    store_be32, store_mac, write_be16, write_be32, write_mac, PacketError,
};

verus! {

/// Length of an Ethernet II header.
pub const ETH_HDR_LEN: usize = 14;

/// Length of an ARP header for Ethernet and IPv4.
pub const ARP_HDR_LEN: usize = 28;

/// Length of an IPv4 header without options.
pub const IPV4_HDR_LEN: usize = 20;

/// Length of a UDP header.
pub const UDP_HDR_LEN: usize = 8;

/// Length of a TCP header without options.
pub const TCP_HDR_LEN: usize = 20;

/// Ethertype of IPv4.
pub const ETHERTYPE_IPV4: u16 = 0x0800;

/// Ethertype of ARP.
pub const ETHERTYPE_ARP: u16 = 0x0806;

/// IPv4 protocol number of ICMP.
pub const IPPROTO_ICMP: u8 = 1;

/// IPv4 protocol number of TCP.
pub const IPPROTO_TCP: u8 = 6;

/// IPv4 protocol number of UDP.
pub const IPPROTO_UDP: u8 = 17;

/// ARP operation code of a request.
pub const ARP_REQUEST: u16 = 1;

/// ARP operation code of a reply.
pub const ARP_REPLY: u16 = 2;

/// Offset of the header that follows the Ethernet header.
pub open spec fn l3_offset() -> int {
    ETH_HDR_LEN as int
}

/// Offset of the header that follows an IPv4 header without options.
pub open spec fn l4_offset() -> int {
    ETH_HDR_LEN as int + IPV4_HDR_LEN as int
}

/// Offset of what a UDP datagram carries.
pub open spec fn udp_payload_offset() -> int {
    ETH_HDR_LEN as int + IPV4_HDR_LEN as int + UDP_HDR_LEN as int
}

/// The size of `network_types::eth::EthHdr`, a `repr(C)` struct of two
/// six-byte addresses and one `u16`. Trusted: Verus does not compute the
/// layout of a foreign struct.
#[verifier::external_body]
pub(crate) fn eth_hdr_len() -> (n: usize)
    ensures
        n == ETH_HDR_LEN,
{
    network_types::eth::EthHdr::LEN
}

/// The size of `network_types::arp::ArpHdr`, a `repr(C)` struct of byte
/// arrays and bytes that add up to 28. Trusted: Verus does not compute the
/// layout of a foreign struct.
#[verifier::external_body]
pub(crate) fn arp_hdr_len() -> (n: usize)
    ensures
        n == ARP_HDR_LEN,
{
    network_types::arp::ArpHdr::LEN
}

/// The size of `network_types::ip::Ipv4Hdr`, a `repr(C)` struct of byte
/// arrays and bytes that add up to 20. Trusted: Verus does not compute the
/// layout of a foreign struct.
#[verifier::external_body]
pub(crate) fn ipv4_hdr_len() -> (n: usize)
    ensures
        n == IPV4_HDR_LEN,
{
    network_types::ip::Ipv4Hdr::LEN
}

/// The size of `network_types::udp::UdpHdr`, a `repr(C)` struct of four
/// two-byte arrays. Trusted: Verus does not compute the layout of a foreign
/// struct.
#[verifier::external_body]
pub(crate) fn udp_hdr_len() -> (n: usize)
    ensures
        n == UDP_HDR_LEN,
{
    network_types::udp::UdpHdr::LEN
}

/// The size of `network_types::tcp::TcpHdr`, a `repr(C)` struct of byte
/// arrays and a two-byte bit field that add up to 20. Trusted: Verus does not
/// compute the layout of a foreign struct.
#[verifier::external_body]
pub(crate) fn tcp_hdr_len() -> (n: usize)
    ensures
        n == TCP_HDR_LEN,
{
    network_types::tcp::TcpHdr::LEN
}

/// An Ethernet II header.
#[derive(Clone, Copy, Debug, PartialEq, Eq)]
pub struct EthHeader {
    /// Destination hardware address.
    pub dst_addr: [u8; 6],
    /// Source hardware address.
    pub src_addr: [u8; 6],
    /// Protocol of what the frame carries.
    pub ether_type: u16,
}

/// An ARP header for Ethernet hardware addresses and IPv4 protocol addresses.
#[derive(Clone, Copy, Debug, PartialEq, Eq)]
pub struct ArpHeader {
    /// Hardware type; 1 is Ethernet.
    pub htype: u16,
    /// Protocol type; 0x0800 is IPv4.
    pub ptype: u16,
    /// Length of a hardware address.
    pub hlen: u8,
    /// Length of a protocol address.
    pub plen: u8,
    /// Operation: 1 is a request, 2 a reply.
    pub oper: u16,
    /// Sender hardware address.
    pub sha: [u8; 6],
    /// Sender protocol address.
    pub spa: u32,
    /// Target hardware address.
    pub tha: [u8; 6],
    /// Target protocol address.
    pub tpa: u32,
}

/// An IPv4 header without options.
#[derive(Clone, Copy, Debug, PartialEq, Eq)]
pub struct Ipv4Header {
    /// Version and header length.
    pub vihl: u8,
    /// Type of service.
    pub tos: u8,
    /// Total length of the datagram.
    pub tot_len: u16,
    /// Identification.
    pub id: u16,
    /// Flags and fragment offset.
    pub frags: u16,
    /// Time to live.
    pub ttl: u8,
    /// Protocol of what the datagram carries.
    pub proto: u8,
    /// Header checksum.
    pub check: u16,
    /// Source address.
    pub src_addr: u32,
    /// Destination address.
    pub dst_addr: u32,
}

/// A UDP header.
#[derive(Clone, Copy, Debug, PartialEq, Eq)]
pub struct UdpHeader {
    /// Source port.
    pub source: u16,
    /// Destination port.
    pub dest: u16,
    /// Length of header and data.
    pub len: u16,
    /// Checksum.
    pub check: u16,
}

/// A TCP header without options.
#[derive(Clone, Copy, Debug, PartialEq, Eq)]
pub struct TcpHeader {
    /// Source port.
    pub source: u16,
    /// Destination port.
    pub dest: u16,
    /// Sequence number.
    pub seq: u32,
    /// Acknowledgement number.
    pub ack_seq: u32,
    /// Data offset and flags.
    pub flags: u16,
    /// Window size.
    pub window: u16,
    /// Checksum.
    pub check: u16,
    /// Urgent pointer.
    pub urg_ptr: u16,
}

/// The Ethernet header that the first 14 bytes of `s` hold.
pub open spec fn eth_at(s: Seq<u8>) -> EthHeader {
    EthHeader { dst_addr: mac_at(s, 0), src_addr: mac_at(s, 6), ether_type: be16(s, 12) }
}

/// The ARP header that the 28 bytes of `s` from `off` hold.
pub open spec fn arp_at(s: Seq<u8>, off: int) -> ArpHeader {
    ArpHeader {
        htype: be16(s, off),
        ptype: be16(s, off + 2),
        hlen: s[off + 4],
        plen: s[off + 5],
        oper: be16(s, off + 6),
        sha: mac_at(s, off + 8),
        spa: be32(s, off + 14),
        tha: mac_at(s, off + 18),
        tpa: be32(s, off + 24),
    }
}

/// The IPv4 header that the 20 bytes of `s` from `off` hold.
pub open spec fn ipv4_at(s: Seq<u8>, off: int) -> Ipv4Header {
    Ipv4Header {
        vihl: s[off],
        tos: s[off + 1],
        tot_len: be16(s, off + 2),
        id: be16(s, off + 4),
        frags: be16(s, off + 6),
        ttl: s[off + 8],
        proto: s[off + 9],
        check: be16(s, off + 10),
        src_addr: be32(s, off + 12),
        dst_addr: be32(s, off + 16),
    }
}

/// The UDP header that the 8 bytes of `s` from `off` hold.
pub open spec fn udp_at(s: Seq<u8>, off: int) -> UdpHeader {
    UdpHeader {
        source: be16(s, off),
        dest: be16(s, off + 2),
        len: be16(s, off + 4),
        check: be16(s, off + 6),
    }
}

/// The TCP header that the 20 bytes of `s` from `off` hold.
pub open spec fn tcp_at(s: Seq<u8>, off: int) -> TcpHeader {
    TcpHeader {
        source: be16(s, off),
        dest: be16(s, off + 2),
        seq: be32(s, off + 4),
        ack_seq: be32(s, off + 8),
        flags: be16(s, off + 12),
        window: be16(s, off + 14),
        check: be16(s, off + 16),
        urg_ptr: be16(s, off + 18),
    }
}

/// What decoding an Ethernet header from a frame yields.
pub open spec fn parse_eth(s: Seq<u8>) -> Result<EthHeader, PacketError> {
    if in_bounds(s.len() as int, 0, ETH_HDR_LEN as int) {
        Ok(eth_at(s))
    } else {
        Err(PacketError::OutOfBounds)
    }
}

/// What decoding an ARP header at `off` yields.
pub open spec fn parse_arp(s: Seq<u8>, off: int) -> Result<ArpHeader, PacketError> {
    if in_bounds(s.len() as int, off, ARP_HDR_LEN as int) {
        Ok(arp_at(s, off))
    } else {
        Err(PacketError::OutOfBounds)
    }
}

/// What decoding an IPv4 header at `off` yields.
pub open spec fn parse_ipv4(s: Seq<u8>, off: int) -> Result<Ipv4Header, PacketError> {
    if in_bounds(s.len() as int, off, IPV4_HDR_LEN as int) {
        Ok(ipv4_at(s, off))
    } else {
        Err(PacketError::OutOfBounds)
    }
}

/// What decoding a UDP header at `off` yields.
pub open spec fn parse_udp(s: Seq<u8>, off: int) -> Result<UdpHeader, PacketError> {
    if in_bounds(s.len() as int, off, UDP_HDR_LEN as int) {
        Ok(udp_at(s, off))
    } else {
        Err(PacketError::OutOfBounds)
    }
}

/// What decoding a TCP header at `off` yields.
pub open spec fn parse_tcp(s: Seq<u8>, off: int) -> Result<TcpHeader, PacketError> {
    if in_bounds(s.len() as int, off, TCP_HDR_LEN as int) {
        Ok(tcp_at(s, off))
    } else {
        Err(PacketError::OutOfBounds)
    }
}

/// `s` with the ARP header `h` written at `off`.
pub open spec fn store_arp(s: Seq<u8>, off: int, h: ArpHeader) -> Seq<u8> {
    let s1 = store_be16(s, off, h.htype);
    let s2 = store_be16(s1, off + 2, h.ptype);
    let s3 = s2.update(off + 4, h.hlen).update(off + 5, h.plen);
    let s4 = store_be16(s3, off + 6, h.oper);
    let s5 = store_mac(s4, off + 8, h.sha);
    let s6 = store_be32(s5, off + 14, h.spa);
    let s7 = store_mac(s6, off + 18, h.tha);
    store_be32(s7, off + 24, h.tpa)
}

/// Decodes the Ethernet header at the start of the frame.
pub fn decode_eth(frame: &[u8]) -> (r: Result<EthHeader, PacketError>)
    ensures
        r == parse_eth(frame@),
{
    let len = eth_hdr_len();
    match check_bounds(frame, 0, len) {
        Err(e) => Err(e),
        Ok(()) => Ok(
            EthHeader {
                dst_addr: read_mac(frame, 0),
                src_addr: read_mac(frame, 6),
                ether_type: read_be16(frame, 12),
            },
        ),
    }
}

/// Decodes the ARP header at `off`.
pub fn decode_arp(frame: &[u8], off: usize) -> (r: Result<ArpHeader, PacketError>)
    ensures
        r == parse_arp(frame@, off as int),
{
    let len = arp_hdr_len();
    match check_bounds(frame, off, len) {
        Err(e) => Err(e),
        Ok(()) => Ok(
            ArpHeader {
                htype: read_be16(frame, off),
                ptype: read_be16(frame, off + 2),
                hlen: frame[off + 4],
                plen: frame[off + 5],
                oper: read_be16(frame, off + 6),
                sha: read_mac(frame, off + 8),
                spa: read_be32(frame, off + 14),
                tha: read_mac(frame, off + 18),
                tpa: read_be32(frame, off + 24),
            },
        ),
    }
}

/// Decodes the IPv4 header at `off`.
pub fn decode_ipv4(frame: &[u8], off: usize) -> (r: Result<Ipv4Header, PacketError>)
    ensures
        r == parse_ipv4(frame@, off as int),
{
    let len = ipv4_hdr_len();
    match check_bounds(frame, off, len) {
        Err(e) => Err(e),
        Ok(()) => Ok(
            Ipv4Header {
                vihl: frame[off],
                tos: frame[off + 1],
                tot_len: read_be16(frame, off + 2),
                id: read_be16(frame, off + 4),
                frags: read_be16(frame, off + 6),
                ttl: frame[off + 8],
                proto: frame[off + 9],
                check: read_be16(frame, off + 10),
                src_addr: read_be32(frame, off + 12),
                dst_addr: read_be32(frame, off + 16),
            },
        ),
    }
}

/// Decodes the UDP header at `off`.
pub fn decode_udp(frame: &[u8], off: usize) -> (r: Result<UdpHeader, PacketError>)
    ensures
        r == parse_udp(frame@, off as int),
{
    let len = udp_hdr_len();
    match check_bounds(frame, off, len) {
        Err(e) => Err(e),
        Ok(()) => Ok(
            UdpHeader {
                source: read_be16(frame, off),
                dest: read_be16(frame, off + 2),
                len: read_be16(frame, off + 4),
                check: read_be16(frame, off + 6),
            },
        ),
    }
}

/// Decodes the TCP header at `off`.
pub fn decode_tcp(frame: &[u8], off: usize) -> (r: Result<TcpHeader, PacketError>)
    ensures
        r == parse_tcp(frame@, off as int),
{
    let len = tcp_hdr_len();
    match check_bounds(frame, off, len) {
        Err(e) => Err(e),
        Ok(()) => Ok(
            TcpHeader {
                source: read_be16(frame, off),
                dest: read_be16(frame, off + 2),
                seq: read_be32(frame, off + 4),
                ack_seq: read_be32(frame, off + 8),
                flags: read_be16(frame, off + 12),
                window: read_be16(frame, off + 14),
                check: read_be16(frame, off + 16),
                urg_ptr: read_be16(frame, off + 18),
            },
        ),
    }
}

/// `s` with the Ethernet header `h` written at its start.
pub open spec fn store_eth(s: Seq<u8>, h: EthHeader) -> Seq<u8> {
    store_be16(store_mac(store_mac(s, 0, h.dst_addr), 6, h.src_addr), 12, h.ether_type)
}

/// Writes the Ethernet header `h` at the start of the frame.
pub fn write_eth(frame: &mut [u8], h: &EthHeader)
    requires
        ETH_HDR_LEN <= old(frame)@.len(),
    ensures
        final(frame)@ == store_eth(old(frame)@, *h),
{
    write_mac(frame, 0, &h.dst_addr);
    write_mac(frame, 6, &h.src_addr);
    write_be16(frame, 12, h.ether_type);
}

/// Writes the ARP header `h` at `off`.
pub fn write_arp(frame: &mut [u8], off: usize, h: &ArpHeader)
    requires
        off + ARP_HDR_LEN <= old(frame)@.len(),
    ensures
        final(frame)@ == store_arp(old(frame)@, off as int, *h),
{
    assert(frame@.len() == frame.len());
    write_be16(frame, off, h.htype);
    write_be16(frame, off + 2, h.ptype);
    frame[off + 4] = h.hlen;
    frame[off + 5] = h.plen;
    write_be16(frame, off + 6, h.oper);
    write_mac(frame, off + 8, &h.sha);
    write_be32(frame, off + 14, h.spa);
    write_mac(frame, off + 18, &h.tha);
    write_be32(frame, off + 24, h.tpa);
}

/// An Ethernet header written to a frame decodes to itself, the frame keeps
/// its length, and no byte behind the header changes.
pub proof fn lemma_store_eth(s: Seq<u8>, h: EthHeader)
    requires
        ETH_HDR_LEN <= s.len(),
    ensures
        store_eth(s, h).len() == s.len(),
        eth_at(store_eth(s, h)) == h,
        forall|j: int| ETH_HDR_LEN <= j < s.len() ==> store_eth(s, h)[j] == s[j],
{
    let t = store_eth(s, h);
    assert(eth_at(t).dst_addr =~= h.dst_addr);
    assert(eth_at(t).src_addr =~= h.src_addr);
}

/// An ARP header written to a frame decodes to itself, the frame keeps its
/// length, and no byte outside the header changes.
pub proof fn lemma_store_arp(s: Seq<u8>, off: int, h: ArpHeader)
    requires
        0 <= off,
        off + ARP_HDR_LEN <= s.len(),
    ensures
        store_arp(s, off, h).len() == s.len(),
        arp_at(store_arp(s, off, h), off) == h,
        forall|j: int|
            0 <= j < s.len() && !(off <= j < off + ARP_HDR_LEN) ==> store_arp(s, off, h)[j] == s[j],
{
    let t = store_arp(s, off, h);
    assert(arp_at(t, off).sha =~= h.sha);
    assert(arp_at(t, off).tha =~= h.tha);
}

} // verus!
