use mix_tunnel::error::PayloadError;
use mix_tunnel::payload_format::{AckPayload, ForwardPayload, PacketType, PingPayload, ReplyPayload};

#[test]
fn test_forward_payload_roundtrip() {
    let original = ForwardPayload::new(
        "example.com:80".to_string(),
        vec![1, 2, 3, 4],
        vec![5, 6, 7, 8, 9],
    );

    let bytes = original.to_bytes();
    let parsed = ForwardPayload::from_bytes(&bytes).unwrap();

    assert_eq!(parsed.destination, original.destination);
    assert_eq!(parsed.surbs.len(), 1);
    assert_eq!(parsed.surbs[0], vec![1, 2, 3, 4]);
    assert_eq!(parsed.data, original.data);
}

#[test]
fn test_forward_payload_multiple_surbs() {
    let original = ForwardPayload::new_with_surbs(
        "example.com:80".to_string(),
        vec![vec![1, 2, 3], vec![4, 5, 6], vec![7, 8, 9]],
        vec![10, 11, 12],
    );

    let bytes = original.to_bytes();
    let parsed = ForwardPayload::from_bytes(&bytes).unwrap();

    assert_eq!(parsed.destination, original.destination);
    assert_eq!(parsed.surbs.len(), 3);
    assert_eq!(parsed.surbs[0], vec![1, 2, 3]);
    assert_eq!(parsed.surbs[1], vec![4, 5, 6]);
    assert_eq!(parsed.surbs[2], vec![7, 8, 9]);
    assert_eq!(parsed.data, original.data);
}

#[test]
fn test_reply_payload_roundtrip() {
    let original = ReplyPayload::new(vec![1, 2, 3, 4, 5]);

    let bytes = original.to_bytes();
    let parsed = ReplyPayload::from_bytes(&bytes).unwrap();

    assert_eq!(parsed.data, original.data);
}

#[test]
fn test_packet_type_detection() {
    let forward = ForwardPayload::new("test".to_string(), vec![], vec![]);
    let forward_bytes = forward.to_bytes();
    assert_eq!(PacketType::from_byte(forward_bytes[0]).unwrap(), PacketType::Forward);

    let reply = ReplyPayload::new(vec![1, 2, 3]);
    let reply_bytes = reply.to_bytes();
    assert_eq!(PacketType::from_byte(reply_bytes[0]).unwrap(), PacketType::Reply);
}

#[test]
fn test_wrong_type_parsing() {
    let forward = ForwardPayload::new("test".to_string(), vec![], vec![]);
    let bytes = forward.to_bytes();

    // Try to parse as reply - should fail
    assert!(ReplyPayload::from_bytes(&bytes).is_err());
}

#[test]
fn packet_type_bytes_and_invalid_byte() {
    assert_eq!(PacketType::Forward.to_byte(), 0x01);
    assert_eq!(PacketType::Reply.to_byte(), 0x02);
    assert_eq!(PacketType::Ping.to_byte(), 0x03);
    assert_eq!(PacketType::Ack.to_byte(), 0x04);
    for t in [PacketType::Forward, PacketType::Reply, PacketType::Ping, PacketType::Ack] {
        assert_eq!(PacketType::from_byte(t.to_byte()).unwrap(), t);
    }
    assert_eq!(PacketType::from_byte(0), Err(PayloadError::InvalidPacketType(0)));
    assert_eq!(PacketType::from_byte(0x05), Err(PayloadError::InvalidPacketType(0x05)));
}

#[test]
fn forward_exact_bytes() {
    let mut p = ForwardPayload::new_with_surbs(
        "ab".to_string(),
        vec![vec![9], vec![]],
        vec![7, 8],
    );
    p.sender_tag = vec![0xAA, 0xBB, 0xCC];
    let bytes = p.to_bytes();
    assert_eq!(
        bytes,
        vec![
            0x01, 0x00, 0x03, 0xAA, 0xBB, 0xCC, 0x00, 0x02, b'a', b'b', 0x00, 0x02, 0x00, 0x01,
            9, 0x00, 0x00, 7, 8
        ]
    );
    let parsed = ForwardPayload::from_bytes(&bytes).unwrap();
    assert_eq!(parsed.sender_tag, vec![0xAA, 0xBB, 0xCC]);
    assert_eq!(parsed.destination, "ab");
    assert_eq!(parsed.surbs, vec![vec![9], vec![]]);
    assert_eq!(parsed.data, vec![7, 8]);
    // Encoding what was parsed gives the same bytes back.
    assert_eq!(parsed.to_bytes(), bytes);
}

#[test]
fn forward_non_ascii_destination() {
    let p = ForwardPayload::new("héllo.example:443".to_string(), vec![1], vec![2]);
    let bytes = p.to_bytes();
    // 'é' takes two bytes in UTF-8.
    assert_eq!(bytes[3], 0);
    assert_eq!(bytes[4], 18);
    let parsed = ForwardPayload::from_bytes(&bytes).unwrap();
    assert_eq!(parsed.destination, "héllo.example:443");
}

#[test]
fn forward_errors() {
    assert_eq!(ForwardPayload::from_bytes(&[]).unwrap_err(), PayloadError::Empty);
    assert_eq!(
        ForwardPayload::from_bytes(&[0x09]).unwrap_err(),
        PayloadError::InvalidPacketType(0x09)
    );
    assert_eq!(
        ForwardPayload::from_bytes(&[0x02]).unwrap_err(),
        PayloadError::UnexpectedPacketType { expected: PacketType::Forward, found: PacketType::Reply }
    );
    assert_eq!(
        ForwardPayload::from_bytes(&[0x01, 0x00]).unwrap_err(),
        PayloadError::TooShortForSenderTagLength
    );
    assert_eq!(
        ForwardPayload::from_bytes(&[0x01, 0x00, 0x02, 0xAA]).unwrap_err(),
        PayloadError::TooShortForSenderTag
    );
    assert_eq!(
        ForwardPayload::from_bytes(&[0x01, 0x00, 0x00, 0x00]).unwrap_err(),
        PayloadError::TooShortForDestinationLength
    );
    assert_eq!(
        ForwardPayload::from_bytes(&[0x01, 0x00, 0x00, 0x00, 0x03, b'a']).unwrap_err(),
        PayloadError::TooShortForDestination
    );
    assert_eq!(
        ForwardPayload::from_bytes(&[0x01, 0x00, 0x00, 0x00, 0x01, 0xFF, 0x00, 0x00]).unwrap_err(),
        PayloadError::InvalidUtf8Destination
    );
    assert_eq!(
        ForwardPayload::from_bytes(&[0x01, 0x00, 0x00, 0x00, 0x01, b'a', 0x00]).unwrap_err(),
        PayloadError::TooShortForSurbCount
    );
    assert_eq!(
        ForwardPayload::from_bytes(&[0x01, 0x00, 0x00, 0x00, 0x01, b'a', 0x00, 0x01, 0x00])
            .unwrap_err(),
        PayloadError::TooShortForSurbLength
    );
    assert_eq!(
        ForwardPayload::from_bytes(&[0x01, 0x00, 0x00, 0x00, 0x01, b'a', 0x00, 0x01, 0x00, 0x02, 5])
            .unwrap_err(),
        PayloadError::TooShortForSurb
    );
}

#[test]
fn forward_lengths_wrap_at_16_bits() {
    // A sender tag of 65536 bytes is written with the length 0.
    let mut p = ForwardPayload::new("d".to_string(), vec![], vec![]);
    p.sender_tag = vec![0u8; 65536];
    let bytes = p.to_bytes();
    assert_eq!(bytes[1], 0);
    assert_eq!(bytes[2], 0);
    assert_eq!(bytes.len(), 1 + 2 + 65536 + 2 + 1 + 2 + 2 + 0);
}

#[test]
fn reply_exact_bytes_and_errors() {
    let p = ReplyPayload::new(vec![4, 5]);
    assert_eq!(p.to_bytes(), vec![0x02, 4, 5]);
    assert_eq!(ReplyPayload::from_bytes(&[0x02]).unwrap().data, Vec::<u8>::new());
    assert_eq!(ReplyPayload::from_bytes(&[]).unwrap_err(), PayloadError::Empty);
    assert_eq!(
        ReplyPayload::from_bytes(&[0x04, 1]).unwrap_err(),
        PayloadError::UnexpectedPacketType { expected: PacketType::Reply, found: PacketType::Ack }
    );
    assert_eq!(ReplyPayload::from_bytes(&[0xFF]).unwrap_err(), PayloadError::InvalidPacketType(0xFF));
}

#[test]
fn ping_roundtrip_and_exact_bytes() {
    let p = PingPayload::new(2, vec![vec![1, 2], vec![3]]);
    let bytes = p.to_bytes();
    assert_eq!(bytes, vec![0x03, 2, 0x00, 0x02, 0x00, 0x02, 1, 2, 0x00, 0x01, 3]);
    let parsed = PingPayload::from_bytes(&bytes).unwrap();
    assert_eq!(parsed.hop_index, 2);
    assert_eq!(parsed.surbs, vec![vec![1, 2], vec![3]]);
}

#[test]
fn ping_ignores_trailing_bytes() {
    let parsed = PingPayload::from_bytes(&[0x03, 7, 0x00, 0x00, 0xEE, 0xEE]).unwrap();
    assert_eq!(parsed.hop_index, 7);
    assert!(parsed.surbs.is_empty());
    assert_eq!(parsed.to_bytes(), vec![0x03, 7, 0x00, 0x00]);
}

#[test]
fn ping_errors() {
    assert_eq!(PingPayload::from_bytes(&[]).unwrap_err(), PayloadError::Empty);
    assert_eq!(
        PingPayload::from_bytes(&[0x01]).unwrap_err(),
        PayloadError::UnexpectedPacketType { expected: PacketType::Ping, found: PacketType::Forward }
    );
    assert_eq!(PingPayload::from_bytes(&[0x03]).unwrap_err(), PayloadError::TooShortForHopIndex);
    assert_eq!(PingPayload::from_bytes(&[0x03, 1, 0]).unwrap_err(), PayloadError::TooShortForSurbCount);
    assert_eq!(
        PingPayload::from_bytes(&[0x03, 1, 0, 1, 0]).unwrap_err(),
        PayloadError::TooShortForSurbLength
    );
    assert_eq!(
        PingPayload::from_bytes(&[0x03, 1, 0, 1, 0, 3, 1, 2]).unwrap_err(),
        PayloadError::TooShortForSurb
    );
}

#[test]
fn ack_roundtrip_and_exact_bytes() {
    let mut addr = [0u8; 32];
    for (i, b) in addr.iter_mut().enumerate() {
        *b = i as u8;
    }
    let p = AckPayload::new(3, addr, 0x0102_0304_0506_0708);
    let bytes = p.to_bytes();
    assert_eq!(bytes.len(), 42);
    assert_eq!(bytes[0], 0x04);
    assert_eq!(bytes[1], 3);
    assert_eq!(&bytes[2..34], &addr[..]);
    assert_eq!(&bytes[34..42], &[1, 2, 3, 4, 5, 6, 7, 8]);
    let parsed = AckPayload::from_bytes(&bytes).unwrap();
    assert_eq!(parsed.hop_index, 3);
    assert_eq!(parsed.node_address, addr);
    assert_eq!(parsed.timestamp, 0x0102_0304_0506_0708);
}

#[test]
fn ack_errors_and_trailing_bytes() {
    assert_eq!(AckPayload::from_bytes(&[]).unwrap_err(), PayloadError::Empty);
    assert_eq!(
        AckPayload::from_bytes(&[0x03]).unwrap_err(),
        PayloadError::UnexpectedPacketType { expected: PacketType::Ack, found: PacketType::Ping }
    );
    let mut short = vec![0x04u8; 41];
    short[1] = 0;
    assert_eq!(AckPayload::from_bytes(&short).unwrap_err(), PayloadError::AckTooShort(41));
    let mut long = vec![0u8; 50];
    long[0] = 0x04;
    long[41] = 9;
    let parsed = AckPayload::from_bytes(&long).unwrap();
    assert_eq!(parsed.timestamp, 9);
    assert_eq!(parsed.to_bytes(), long[..42].to_vec());
}

#[test]
fn payloads_refuse_each_others_bytes() {
    let f = ForwardPayload::new("x".to_string(), vec![1], vec![2]).to_bytes();
    let r = ReplyPayload::new(vec![1]).to_bytes();
    let p = PingPayload::new(0, vec![]).to_bytes();
    let a = AckPayload::new(0, [0u8; 32], 0).to_bytes();
    assert!(ReplyPayload::from_bytes(&f).is_err());
    assert!(PingPayload::from_bytes(&f).is_err());
    assert!(AckPayload::from_bytes(&f).is_err());
    assert!(ForwardPayload::from_bytes(&r).is_err());
    assert!(PingPayload::from_bytes(&r).is_err());
    assert!(AckPayload::from_bytes(&r).is_err());
    assert!(ForwardPayload::from_bytes(&p).is_err());
    assert!(ReplyPayload::from_bytes(&p).is_err());
    assert!(AckPayload::from_bytes(&p).is_err());
    assert_eq!(
        ForwardPayload::from_bytes(&a).unwrap_err(),
        PayloadError::UnexpectedPacketType { expected: PacketType::Forward, found: PacketType::Ack }
    );
    assert!(ReplyPayload::from_bytes(&a).is_err());
    assert!(PingPayload::from_bytes(&a).is_err());
}
