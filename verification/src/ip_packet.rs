//! Reading the addresses, protocol and ports of IPv4 and IPv6 packets, and
//! rewriting IPv4 addresses with a fresh header checksum (for NAT).
use vstd::prelude::*;
use crate::error::PacketError;
use crate::wire::{be16, be16_value};

verus! {

/// An IP address, by its octets in network order.
#[derive(Debug, Clone, Copy, PartialEq, Eq, Hash)]
pub enum IpAddress {
    V4([u8; 4]),
    V6([u8; 16]),
}

pub enum IpAddressView {
    V4(Seq<u8>),
    V6(Seq<u8>),
}

impl View for IpAddress {
    type V = IpAddressView;

    open spec fn view(&self) -> IpAddressView {
        match self {
            IpAddress::V4(a) => IpAddressView::V4(a@),
            IpAddress::V6(a) => IpAddressView::V6(a@),
        }
    }
}

/// Parsed IP packet information
#[derive(Debug, Clone, PartialEq, Eq, Hash)]
pub struct IpPacketInfo {
    pub src_addr: IpAddress,
    pub dst_addr: IpAddress,
    pub protocol: u8,
    pub src_port: Option<u16>,
    pub dst_port: Option<u16>,
}

pub struct IpPacketInfoView {
    pub src_addr: IpAddressView,
    pub dst_addr: IpAddressView,
    pub protocol: u8,
    pub src_port: Option<u16>,
    pub dst_port: Option<u16>,
}

impl View for IpPacketInfo {
    type V = IpPacketInfoView;

    open spec fn view(&self) -> IpPacketInfoView {
        IpPacketInfoView {
            src_addr: self.src_addr@,
            dst_addr: self.dst_addr@,
            protocol: self.protocol,
            src_port: self.src_port,
            dst_port: self.dst_port,
        }
    }
}

/// A parse result seen through the view of the packet information.
pub open spec fn info_result_view(r: Result<IpPacketInfo, PacketError>) -> Result<
    IpPacketInfoView,
    PacketError,
> {
    match r {
        Ok(info) => Ok(info@),
        Err(e) => Err(e),
    }
}

/// The version nibble of a packet (the high half of its first byte).
pub open spec fn ip_version(p: Seq<u8>) -> u8 {
    p[0] / 16
}

/// The IPv4 header length in bytes (the low nibble of the first byte, in
/// 32-bit words).
pub open spec fn ipv4_ihl(p: Seq<u8>) -> int {
    (p[0] % 16) * 4
}

/// The source and destination ports of a TCP (6) or UDP (17) header at
/// `at`, when its first four bytes are there.
pub open spec fn transport_ports(p: Seq<u8>, at: int, protocol: u8) -> (Option<u16>, Option<u16>) {
    if p.len() >= at + 4 && (protocol == 6 || protocol == 17) {
        (Some(be16_value(p[at], p[at + 1])), Some(be16_value(p[at + 2], p[at + 3])))
    } else {
        (None, None)
    }
}

/// What parsing `p` as an IPv4 packet gives.
pub open spec fn spec_parse_ipv4(p: Seq<u8>) -> Result<IpPacketInfoView, PacketError> {
    if p.len() < 20 {
        Err(PacketError::TooShortForIpv4Header)
    } else if ip_version(p) != 4 {
        Err(PacketError::NotIpv4(ip_version(p)))
    } else if p.len() < ipv4_ihl(p) {
        Err(PacketError::TooShortForIhl(ipv4_ihl(p) as usize))
    } else {
        let ports = transport_ports(p, ipv4_ihl(p), p[9]);
        Ok(
            IpPacketInfoView {
                src_addr: IpAddressView::V4(p.subrange(12, 16)),
                dst_addr: IpAddressView::V4(p.subrange(16, 20)),
                protocol: p[9],
                src_port: ports.0,
                dst_port: ports.1,
            },
        )
    }
}

/// What parsing `p` as an IPv6 packet gives.
pub open spec fn spec_parse_ipv6(p: Seq<u8>) -> Result<IpPacketInfoView, PacketError> {
    if p.len() < 40 {
        Err(PacketError::TooShortForIpv6Header)
    } else if ip_version(p) != 6 {
        Err(PacketError::NotIpv6(ip_version(p)))
    } else {
        let ports = transport_ports(p, 40, p[6]);
        Ok(
            IpPacketInfoView {
                src_addr: IpAddressView::V6(p.subrange(8, 24)),
                dst_addr: IpAddressView::V6(p.subrange(24, 40)),
                protocol: p[6],
                src_port: ports.0,
                dst_port: ports.1,
            },
        )
    }
}

/// What parsing `p` as an IP packet of either version gives.
pub open spec fn spec_parse_ip(p: Seq<u8>) -> Result<IpPacketInfoView, PacketError> {
    if p.len() == 0 {
        Err(PacketError::Empty)
    } else if ip_version(p) == 4 {
        spec_parse_ipv4(p)
    } else if ip_version(p) == 6 {
        spec_parse_ipv6(p)
    } else {
        Err(PacketError::UnknownIpVersion(ip_version(p)))
    }
}

/// Reads the version nibble of the first byte.
fn read_version(packet: &[u8]) -> (v: u8)
    requires
        packet@.len() > 0,
    ensures
        v == ip_version(packet@),
{
    let b = packet[0];
    let v = (b >> 4u8) & 0x0Fu8;
    assert(v == b / 16) by (bit_vector)
        requires
            v == (b >> 4u8) & 0x0Fu8,
    ;
    v
}

/// Reads the IPv4 header length in bytes.
fn read_ihl(packet: &[u8]) -> (ihl: usize)
    requires
        packet@.len() > 0,
    ensures
        ihl == ipv4_ihl(packet@),
        ihl <= 60,
        ihl % 4 == 0,
{
    let b = packet[0];
    let low = b & 0x0Fu8;
    assert(low == b % 16) by (bit_vector)
        requires
            low == b & 0x0Fu8,
    ;
    (low as usize) * 4
}

/// Reads the ports of a TCP or UDP header at `at`.
fn read_ports(packet: &[u8], at: usize, protocol: u8) -> (r: (Option<u16>, Option<u16>))
    requires
        at <= packet@.len(),
    ensures
        r == transport_ports(packet@, at as int, protocol),
{
    if packet.len() - at >= 4 {
        if protocol == 6 || protocol == 17 {
            let src_port = (packet[at] as u16) * 256 + (packet[at + 1] as u16);
            let dst_port = (packet[at + 2] as u16) * 256 + (packet[at + 3] as u16);
            (Some(src_port), Some(dst_port))
        } else {
            (None, None)
        }
    } else {
        (None, None)
    }
}

/// Copies the 16 bytes at `at`.
fn read_octets16(packet: &[u8], at: usize) -> (r: [u8; 16])
    requires
        at + 16 <= packet@.len(),
    ensures
        r@ == packet@.subrange(at as int, at + 16),
{
    let mut out = [0u8; 16];
    for i in 0..16
        invariant
            at + 16 <= packet.len(),
            forall|j: int| 0 <= j < i ==> out@[j] == packet@[at + j],
    {
        out[i] = packet[at + i];
    }
    assert(out@ =~= packet@.subrange(at as int, at + 16));
    out
}

/// Copies the 4 bytes at `at`.
fn read_octets4(packet: &[u8], at: usize) -> (r: [u8; 4])
    requires
        at + 4 <= packet@.len(),
    ensures
        r@ == packet@.subrange(at as int, at + 4),
{
    let out = [packet[at], packet[at + 1], packet[at + 2], packet[at + 3]];
    assert(out@ =~= packet@.subrange(at as int, at + 4));
    out
}

/// Parse an IPv4 packet and extract header information
pub fn parse_ipv4_packet(packet: &[u8]) -> (r: Result<IpPacketInfo, PacketError>)
    ensures
        info_result_view(r) == spec_parse_ipv4(packet@),
{
    if packet.len() < 20 {
        return Err(PacketError::TooShortForIpv4Header);
    }
    let version = read_version(packet);
    if version != 4 {
        return Err(PacketError::NotIpv4(version));
    }
    let ihl = read_ihl(packet);
    if packet.len() < ihl {
        return Err(PacketError::TooShortForIhl(ihl));
    }
    let protocol = packet[9];
    let src_addr = read_octets4(packet, 12);
    let dst_addr = read_octets4(packet, 16);
    let (src_port, dst_port) = read_ports(packet, ihl, protocol);
    Ok(
        IpPacketInfo {
            src_addr: IpAddress::V4(src_addr),
            dst_addr: IpAddress::V4(dst_addr),
            protocol,
            src_port,
            dst_port,
        },
    )
}

/// Parse an IPv6 packet and extract header information
pub fn parse_ipv6_packet(packet: &[u8]) -> (r: Result<IpPacketInfo, PacketError>)
    ensures
        info_result_view(r) == spec_parse_ipv6(packet@),
{
    if packet.len() < 40 {
        return Err(PacketError::TooShortForIpv6Header);
    }
    let version = read_version(packet);
    if version != 6 {
        return Err(PacketError::NotIpv6(version));
    }
    let protocol = packet[6];
    let src_addr = read_octets16(packet, 8);
    let dst_addr = read_octets16(packet, 24);
    let (src_port, dst_port) = read_ports(packet, 40, protocol);
    Ok(
        IpPacketInfo {
            src_addr: IpAddress::V6(src_addr),
            dst_addr: IpAddress::V6(dst_addr),
            protocol,
            src_port,
            dst_port,
        },
    )
}

/// Parse an IP packet (v4 or v6) and extract header information
pub fn parse_ip_packet(packet: &[u8]) -> (r: Result<IpPacketInfo, PacketError>)
    ensures
        info_result_view(r) == spec_parse_ip(packet@),
{
    if packet.len() == 0 {
        return Err(PacketError::Empty);
    }
    let version = read_version(packet);
    match version {
        4 => parse_ipv4_packet(packet),
        6 => parse_ipv6_packet(packet),
        _ => Err(PacketError::UnknownIpVersion(version)),
    }
}

/// The 16-bit big-endian word at byte `i`.
pub open spec fn word_at(p: Seq<u8>, i: int) -> int {
    p[i] * 256 + p[i + 1]
}

/// The sum of the first `k` 16-bit words.
pub open spec fn words_sum(p: Seq<u8>, k: nat) -> int
    decreases k,
{
    if k == 0 {
        0
    } else {
        words_sum(p, (k - 1) as nat) + word_at(p, 2 * (k - 1))
    }
}

/// The number of 16-bit words in the IPv4 header.
pub open spec fn ipv4_header_words(p: Seq<u8>) -> nat {
    ((p[0] % 16) * 2) as nat
}

/// A sum folded into 16 bits by adding its carries back in (ones'
/// complement addition).
pub open spec fn fold16(s: int) -> int
    decreases s,
{
    if s < 0x10000 {
        s
    } else {
        fold16(s % 0x10000 + s / 0x10000)
    }
}

/// The header with its checksum field cleared.
pub open spec fn zero_checksum_field(p: Seq<u8>) -> Seq<u8> {
    p.update(10, 0).update(11, 0)
}

/// The IPv4 header checksum of `p`: the ones' complement of the ones'
/// complement sum of the header words, the checksum field counted as zero.
pub open spec fn ipv4_header_checksum(p: Seq<u8>) -> u16 {
    (0xFFFF - fold16(words_sum(zero_checksum_field(p), ipv4_header_words(p)))) as u16
}

/// The header checksum of `p` verifies: its header words, checksum field
/// included, add up to 0xFFFF in ones' complement arithmetic.
pub open spec fn ipv4_checksum_verifies(p: Seq<u8>) -> bool {
    fold16(words_sum(p, ipv4_header_words(p))) == 0xFFFF
}

/// What recalculating the IPv4 header checksum of `p` answers, and the
/// packet it leaves: `p` with the checksum written into bytes 10 and 11, or
/// `p` unchanged on an error.
pub open spec fn spec_recalculate_ipv4_checksum(p: Seq<u8>) -> (Result<(), PacketError>, Seq<u8>) {
    if p.len() < 20 {
        (Err(PacketError::TooShortForIpv4Header), p)
    } else if p.len() < ipv4_ihl(p) {
        (Err(PacketError::TooShortForIhl(ipv4_ihl(p) as usize)), p)
    } else {
        let c = be16(ipv4_header_checksum(p));
        (Ok(()), p.update(10, c[0]).update(11, c[1]))
    }
}

/// `p` with the four bytes at `at` replaced by `addr`.
pub open spec fn with_ipv4_addr(p: Seq<u8>, at: int, addr: Seq<u8>) -> Seq<u8> {
    p.update(at, addr[0]).update(at + 1, addr[1]).update(at + 2, addr[2]).update(at + 3, addr[3])
}

/// What writing an IPv4 address at byte `at` (12 for the source, 16 for the
/// destination) and recalculating the checksum answers, and the packet it
/// leaves. Where the packet is shorter than the header length that it
/// declares, the address is written and the checksum is left as it was.
pub open spec fn spec_set_ipv4_addr(p: Seq<u8>, at: int, addr: Seq<u8>) -> (
    Result<(), PacketError>,
    Seq<u8>,
) {
    if p.len() < 20 {
        (Err(PacketError::TooShortForIpv4Header), p)
    } else {
        spec_recalculate_ipv4_checksum(with_ipv4_addr(p, at, addr))
    }
}

proof fn lemma_fold16_step(s: int)
    requires
        s >= 0x10000,
    ensures
        0 < s % 0x10000 + s / 0x10000 < s,
        (s % 0x10000 + s / 0x10000) % 0xFFFF == s % 0xFFFF,
{
    let q = s / 0x10000;
    let r = s % 0x10000;
    assert(s == 0x10000 * q + r && 0 <= r < 0x10000) by (nonlinear_arith)
        requires
            q == s / 0x10000,
            r == s % 0x10000,
    ;
    assert(q >= 1);
    assert((r + q) % 0xFFFF == s % 0xFFFF) by (nonlinear_arith)
        requires
            s == 0x10000 * q + r,
            q >= 1,
            r >= 0,
    {
        assert(s == (r + q) + 0xFFFF * q);
        vstd::arithmetic::div_mod::lemma_mod_multiples_vanish(q, r + q, 0xFFFF);
    }
}

/// Facts about folding carries: the result keeps the value modulo 0xFFFF,
/// never grows, and lies in 1..=0xFFFF for a positive sum.
pub proof fn lemma_fold16(s: int)
    requires
        s >= 0,
    ensures
        fold16(s) % 0xFFFF == s % 0xFFFF,
        fold16(s) <= s,
        0 <= fold16(s) <= 0xFFFF,
        s > 0 ==> fold16(s) > 0,
    decreases s,
{
    if s >= 0x10000 {
        lemma_fold16_step(s);
        lemma_fold16(s % 0x10000 + s / 0x10000);
    }
}

/// Recalculate IPv4 header checksum
pub fn recalculate_ipv4_checksum(packet: &mut [u8]) -> (r: Result<(), PacketError>)
    ensures
        (r, final(packet)@) == spec_recalculate_ipv4_checksum(old(packet)@),
{
    if packet.len() < 20 {
        return Err(PacketError::TooShortForIpv4Header);
    }
    let ihl = read_ihl(packet);
    if packet.len() < ihl {
        return Err(PacketError::TooShortForIhl(ihl));
    }
    // Clear existing checksum
    packet[10] = 0;
    packet[11] = 0;
    let ghost zeroed = packet@;
    assert(zeroed == zero_checksum_field(old(packet)@));
    // Calculate checksum
    let mut sum: u32 = 0;
    let mut i: usize = 0;
    while i < ihl
        invariant
            ihl <= 60,
            ihl % 4 == 0,
            ihl <= packet@.len(),
            i <= ihl,
            i % 2 == 0,
            packet@ == zeroed,
            sum == words_sum(zeroed, (i / 2) as nat),
            sum <= (i / 2) * 0xFFFF,
        decreases ihl - i,
    {
        let word = (packet[i] as u32) * 256 + (packet[i + 1] as u32);
        assert(words_sum(zeroed, ((i + 2) / 2) as nat) == words_sum(zeroed, (i / 2) as nat)
            + word_at(zeroed, i as int));
        sum = sum + word;
        i = i + 2;
    }
    assert(i / 2 == ipv4_header_words(old(packet)@));
    // Fold 32-bit sum to 16 bits
    let ghost total = sum as int;
    while (sum >> 16u32) != 0
        invariant
            fold16(sum as int) == fold16(total),
        decreases sum,
    {
        let s = sum;
        assert((s >> 16u32) == s / 0x10000 && (s & 0xFFFFu32) == s % 0x10000) by (bit_vector);
        assert(s >= 0x10000) by (bit_vector)
            requires
                (s >> 16u32) != 0,
        ;
        proof {
            lemma_fold16_step(s as int);
        }
        sum = (s & 0xFFFFu32) + (s >> 16u32);
    }
    let s = sum;
    assert(s < 0x10000) by (bit_vector)
        requires
            (s >> 16u32) == 0,
    ;
    let checksum = !sum as u16;
    assert(checksum == 0xFFFF - s) by (bit_vector)
        requires
            checksum == !s as u16,
            s < 0x10000,
    ;
    packet[10] = (checksum / 256) as u8;
    packet[11] = (checksum % 256) as u8;
    Ok(())
}

/// Writes the four bytes of `addr` at `at` and recalculates the checksum.
fn set_ipv4_addr(packet: &mut [u8], at: usize, addr: [u8; 4]) -> (r: Result<(), PacketError>)
    requires
        at == 12 || at == 16,
    ensures
        (r, final(packet)@) == spec_set_ipv4_addr(old(packet)@, at as int, addr@),
{
    if packet.len() < 20 {
        return Err(PacketError::TooShortForIpv4Header);
    }
    packet[at] = addr[0];
    packet[at + 1] = addr[1];
    packet[at + 2] = addr[2];
    packet[at + 3] = addr[3];
    assert(packet@ == with_ipv4_addr(old(packet)@, at as int, addr@));
    recalculate_ipv4_checksum(packet)
}

/// Modify source IP address in an IPv4 packet (for NAT)
pub fn modify_ipv4_src_addr(packet: &mut [u8], new_src: [u8; 4]) -> (r: Result<(), PacketError>)
    ensures
        (r, final(packet)@) == spec_set_ipv4_addr(old(packet)@, 12, new_src@),
{
    set_ipv4_addr(packet, 12, new_src)
}

/// Modify destination IP address in an IPv4 packet (for NAT)
pub fn modify_ipv4_dst_addr(packet: &mut [u8], new_dst: [u8; 4]) -> (r: Result<(), PacketError>)
    ensures
        (r, final(packet)@) == spec_set_ipv4_addr(old(packet)@, 16, new_dst@),
{
    set_ipv4_addr(packet, 16, new_dst)
}

} // verus!
