use mix_tunnel::error::PacketError;
use mix_tunnel::ip_packet::{
    modify_ipv4_dst_addr, modify_ipv4_src_addr, parse_ip_packet, parse_ipv4_packet,
    parse_ipv6_packet, recalculate_ipv4_checksum, IpAddress, IpPacketInfo,
};

/// A UDP/IPv4 packet from 192.168.0.1:5353 to 192.168.0.199:53, header
/// checksum 0xb861.
fn sample_ipv4() -> Vec<u8> {
    vec![
        0x45, 0x00, 0x00, 0x73, 0x00, 0x00, 0x40, 0x00, 0x40, 0x11, 0xb8, 0x61, 0xc0, 0xa8, 0x00,
        0x01, 0xc0, 0xa8, 0x00, 0xc7, 0x14, 0xe9, 0x00, 0x35, 0x00, 0x08, 0x00, 0x00,
    ]
}

/// Ones' complement sum of the header words, folded to 16 bits.
fn header_sum(p: &[u8]) -> u32 {
    let ihl = ((p[0] & 0x0f) as usize) * 4;
    let mut sum: u32 = 0;
    for i in (0..ihl).step_by(2) {
        sum += u16::from_be_bytes([p[i], p[i + 1]]) as u32;
    }
    while sum >> 16 != 0 {
        sum = (sum & 0xffff) + (sum >> 16);
    }
    sum
}

#[test]
fn parse_ipv4_udp() {
    let info = parse_ipv4_packet(&sample_ipv4()).unwrap();
    assert_eq!(
        info,
        IpPacketInfo {
            src_addr: IpAddress::V4([192, 168, 0, 1]),
            dst_addr: IpAddress::V4([192, 168, 0, 199]),
            protocol: 17,
            src_port: Some(5353),
            dst_port: Some(53),
        }
    );
    assert_eq!(parse_ip_packet(&sample_ipv4()).unwrap(), info);
}

#[test]
fn parse_ipv4_without_ports() {
    // ICMP: no ports.
    let mut p = sample_ipv4();
    p[9] = 1;
    let info = parse_ipv4_packet(&p).unwrap();
    assert_eq!(info.protocol, 1);
    assert_eq!(info.src_port, None);
    assert_eq!(info.dst_port, None);
    // TCP header cut short: no ports.
    let mut q = sample_ipv4();
    q[9] = 6;
    q.truncate(23);
    let info = parse_ipv4_packet(&q).unwrap();
    assert_eq!(info.src_port, None);
    assert_eq!(info.dst_port, None);
}

#[test]
fn parse_ipv4_errors() {
    assert_eq!(parse_ipv4_packet(&[0x45; 19]).unwrap_err(), PacketError::TooShortForIpv4Header);
    let mut p = sample_ipv4();
    p[0] = 0x65;
    assert_eq!(parse_ipv4_packet(&p).unwrap_err(), PacketError::NotIpv4(6));
    let mut q = sample_ipv4();
    q[0] = 0x4f; // header of 60 bytes in a 28-byte packet
    assert_eq!(parse_ipv4_packet(&q).unwrap_err(), PacketError::TooShortForIhl(60));
}

fn sample_ipv6() -> Vec<u8> {
    let mut p = vec![0u8; 48];
    p[0] = 0x60;
    p[6] = 6; // TCP
    p[7] = 64;
    for i in 0..16 {
        p[8 + i] = 0x20 + i as u8;
        p[24 + i] = 0x40 + i as u8;
    }
    p[40] = 0x1f;
    p[41] = 0x90; // 8080
    p[42] = 0x01;
    p[43] = 0xbb; // 443
    p
}

#[test]
fn parse_ipv6_tcp() {
    let info = parse_ipv6_packet(&sample_ipv6()).unwrap();
    let mut src = [0u8; 16];
    let mut dst = [0u8; 16];
    for i in 0..16 {
        src[i] = 0x20 + i as u8;
        dst[i] = 0x40 + i as u8;
    }
    assert_eq!(
        info,
        IpPacketInfo {
            src_addr: IpAddress::V6(src),
            dst_addr: IpAddress::V6(dst),
            protocol: 6,
            src_port: Some(8080),
            dst_port: Some(443),
        }
    );
    assert_eq!(parse_ip_packet(&sample_ipv6()).unwrap(), info);
    let mut short = sample_ipv6();
    short.truncate(43);
    assert_eq!(parse_ipv6_packet(&short).unwrap().src_port, None);
}

#[test]
fn parse_ipv6_errors() {
    assert_eq!(parse_ipv6_packet(&[0x60; 39]).unwrap_err(), PacketError::TooShortForIpv6Header);
    let mut p = sample_ipv6();
    p[0] = 0x40;
    assert_eq!(parse_ipv6_packet(&p).unwrap_err(), PacketError::NotIpv6(4));
}

#[test]
fn parse_ip_dispatch_errors() {
    assert_eq!(parse_ip_packet(&[]).unwrap_err(), PacketError::Empty);
    assert_eq!(parse_ip_packet(&[0x50, 0, 0]).unwrap_err(), PacketError::UnknownIpVersion(5));
    assert_eq!(parse_ip_packet(&[0x45, 0, 0]).unwrap_err(), PacketError::TooShortForIpv4Header);
    assert_eq!(parse_ip_packet(&[0x60, 0, 0]).unwrap_err(), PacketError::TooShortForIpv6Header);
}

#[test]
fn checksum_known_value() {
    let mut p = sample_ipv4();
    p[10] = 0;
    p[11] = 0;
    recalculate_ipv4_checksum(&mut p).unwrap();
    assert_eq!(p, sample_ipv4());
    assert_eq!(header_sum(&p), 0xffff);
    // A stale checksum is replaced.
    let mut q = sample_ipv4();
    q[10] = 0x12;
    q[11] = 0x34;
    recalculate_ipv4_checksum(&mut q).unwrap();
    assert_eq!(q, sample_ipv4());
}

#[test]
fn checksum_errors_leave_packet() {
    let mut p = vec![0x45u8; 19];
    assert_eq!(recalculate_ipv4_checksum(&mut p).unwrap_err(), PacketError::TooShortForIpv4Header);
    assert_eq!(p, vec![0x45u8; 19]);
    let mut q = sample_ipv4();
    q[0] = 0x48; // 32-byte header in a 28-byte packet
    let before = q.clone();
    assert_eq!(recalculate_ipv4_checksum(&mut q).unwrap_err(), PacketError::TooShortForIhl(32));
    assert_eq!(q, before);
}

#[test]
fn modify_src_then_parse() {
    let mut p = sample_ipv4();
    modify_ipv4_src_addr(&mut p, [10, 0, 0, 2]).unwrap();
    let info = parse_ipv4_packet(&p).unwrap();
    assert_eq!(info.src_addr, IpAddress::V4([10, 0, 0, 2]));
    assert_eq!(info.dst_addr, IpAddress::V4([192, 168, 0, 199]));
    assert_eq!(info.src_port, Some(5353));
    assert_eq!(header_sum(&p), 0xffff);
    assert_ne!(&p[10..12], &sample_ipv4()[10..12]);
    assert_eq!(&p[16..], &sample_ipv4()[16..]);
}

#[test]
fn modify_dst_then_parse() {
    let mut p = sample_ipv4();
    modify_ipv4_dst_addr(&mut p, [8, 8, 4, 4]).unwrap();
    let info = parse_ipv4_packet(&p).unwrap();
    assert_eq!(info.src_addr, IpAddress::V4([192, 168, 0, 1]));
    assert_eq!(info.dst_addr, IpAddress::V4([8, 8, 4, 4]));
    assert_eq!(header_sum(&p), 0xffff);
    assert_eq!(&p[12..16], &sample_ipv4()[12..16]);
}

#[test]
fn modify_errors() {
    let mut p = vec![0x45u8; 10];
    assert_eq!(modify_ipv4_src_addr(&mut p, [1, 2, 3, 4]).unwrap_err(), PacketError::TooShortForIpv4Header);
    assert_eq!(p, vec![0x45u8; 10]);
    // Header longer than the packet: the address is written, the checksum kept.
    let mut q = sample_ipv4();
    q[0] = 0x48;
    assert_eq!(modify_ipv4_dst_addr(&mut q, [1, 2, 3, 4]).unwrap_err(), PacketError::TooShortForIhl(32));
    assert_eq!(&q[16..20], &[1, 2, 3, 4]);
    assert_eq!(&q[10..12], &sample_ipv4()[10..12]);
}
