//! What the IP parsers read, stated byte by byte: where the addresses, the
//! protocol and the TCP/UDP ports of a packet are taken from, and which error
//! comes for which packet.
use vstd::prelude::*;
use crate::error::PacketError;
use crate::ip_packet::{IpAddressView, IpPacketInfoView, spec_parse_ipv4, spec_parse_ipv6, spec_parse_ip};

verus! {

/// An IPv4 packet with a 20-byte header or longer, and at least as long as
/// the header length in its low nibble, parses: the source address is bytes
/// 12..16, the destination bytes 16..20, the protocol byte 9. For TCP (6) and
/// UDP (17), when the four bytes after the header are there, the source port
/// is the big-endian value of the first two of them and the destination port
/// that of the next two; otherwise both ports are absent.
pub proof fn lemma_parse_ipv4_reads_header(p: Seq<u8>)
    requires
        p.len() >= 20,
        p[0] / 16 == 4,
        p.len() >= (p[0] % 16) * 4,
    ensures
        spec_parse_ipv4(p) is Ok,
        spec_parse_ipv4(p)->Ok_0.src_addr == IpAddressView::V4(seq![p[12], p[13], p[14], p[15]]),
        spec_parse_ipv4(p)->Ok_0.dst_addr == IpAddressView::V4(seq![p[16], p[17], p[18], p[19]]),
        spec_parse_ipv4(p)->Ok_0.protocol == p[9],
        ({
            let h = (p[0] % 16) * 4;
            (p.len() >= h + 4 && (p[9] == 6 || p[9] == 17)) ==> {
                &&& spec_parse_ipv4(p)->Ok_0.src_port matches Some(sp) && sp as int == p[h] * 256
                    + p[h + 1]
                &&& spec_parse_ipv4(p)->Ok_0.dst_port matches Some(dp) && dp as int == p[h + 2]
                    * 256 + p[h + 3]
            }
        }),
        ({
            let h = (p[0] % 16) * 4;
            !(p.len() >= h + 4 && (p[9] == 6 || p[9] == 17)) ==> {
                &&& spec_parse_ipv4(p)->Ok_0.src_port is None
                &&& spec_parse_ipv4(p)->Ok_0.dst_port is None
            }
        }),
{
    assert(p.subrange(12, 16) =~= seq![p[12], p[13], p[14], p[15]]);
    assert(p.subrange(16, 20) =~= seq![p[16], p[17], p[18], p[19]]);
}

/// An IPv4 parse fails exactly as follows: a packet under 20 bytes is too
/// short for the header; then a version nibble other than 4 is refused with
/// that version; then a packet shorter than its declared header length is
/// refused with that length.
pub proof fn lemma_parse_ipv4_errors(p: Seq<u8>)
    ensures
        p.len() < 20 ==> spec_parse_ipv4(p) == Err::<IpPacketInfoView, PacketError>(
            PacketError::TooShortForIpv4Header,
        ),
        p.len() >= 20 && p[0] / 16 != 4 ==> spec_parse_ipv4(p) == Err::<
            IpPacketInfoView,
            PacketError,
        >(PacketError::NotIpv4(p[0] / 16)),
        p.len() >= 20 && p[0] / 16 == 4 && p.len() < (p[0] % 16) * 4 ==> spec_parse_ipv4(p)
            == Err::<IpPacketInfoView, PacketError>(
            PacketError::TooShortForIhl(((p[0] % 16) * 4) as usize),
        ),
{
}

/// An IPv6 packet of at least 40 bytes with version nibble 6 parses: the
/// source address is bytes 8..24, the destination bytes 24..40, the protocol
/// the next-header byte 6. For TCP (6) and UDP (17), when bytes 40..44 are
/// there, the source port is the big-endian value of bytes 40, 41 and the
/// destination port that of bytes 42, 43; otherwise both ports are absent.
pub proof fn lemma_parse_ipv6_reads_header(p: Seq<u8>)
    requires
        p.len() >= 40,
        p[0] / 16 == 6,
    ensures
        spec_parse_ipv6(p) is Ok,
        spec_parse_ipv6(p)->Ok_0.src_addr == IpAddressView::V6(p.subrange(8, 24)),
        spec_parse_ipv6(p)->Ok_0.dst_addr == IpAddressView::V6(p.subrange(24, 40)),
        spec_parse_ipv6(p)->Ok_0.protocol == p[6],
        (p.len() >= 44 && (p[6] == 6 || p[6] == 17)) ==> {
            &&& spec_parse_ipv6(p)->Ok_0.src_port matches Some(sp) && sp as int == p[40] * 256
                + p[41]
            &&& spec_parse_ipv6(p)->Ok_0.dst_port matches Some(dp) && dp as int == p[42] * 256
                + p[43]
        },
        !(p.len() >= 44 && (p[6] == 6 || p[6] == 17)) ==> {
            &&& spec_parse_ipv6(p)->Ok_0.src_port is None
            &&& spec_parse_ipv6(p)->Ok_0.dst_port is None
        },
{
}

/// An IPv6 parse fails exactly as follows: a packet under 40 bytes is too
/// short for the header; then a version nibble other than 6 is refused with
/// that version.
pub proof fn lemma_parse_ipv6_errors(p: Seq<u8>)
    ensures
        p.len() < 40 ==> spec_parse_ipv6(p) == Err::<IpPacketInfoView, PacketError>(
            PacketError::TooShortForIpv6Header,
        ),
        p.len() >= 40 && p[0] / 16 != 6 ==> spec_parse_ipv6(p) == Err::<
            IpPacketInfoView,
            PacketError,
        >(PacketError::NotIpv6(p[0] / 16)),
{
}

/// Parsing a packet of either version gives exactly what the parser of the
/// version in its high nibble gives; an empty packet and any other version
/// are refused.
pub proof fn lemma_parse_ip_dispatches(p: Seq<u8>)
    ensures
        p.len() == 0 ==> spec_parse_ip(p) == Err::<IpPacketInfoView, PacketError>(
            PacketError::Empty,
        ),
        p.len() > 0 && p[0] / 16 == 4 ==> spec_parse_ip(p) == spec_parse_ipv4(p),
        p.len() > 0 && p[0] / 16 == 6 ==> spec_parse_ip(p) == spec_parse_ipv6(p),
        p.len() > 0 && p[0] / 16 != 4 && p[0] / 16 != 6 ==> spec_parse_ip(p) == Err::<
            IpPacketInfoView,
            PacketError,
        >(PacketError::UnknownIpVersion(p[0] / 16)),
{
}

} // verus!
