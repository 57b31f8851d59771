//! The byte layout of every payload, stated byte by byte: which byte holds
//! the type, the hop index, each length, and where each field lies; and
//! what each parser takes from which bytes.
use vstd::prelude::*;
use vstd::utf8::encode_utf8;
use crate::error::PayloadError;
use crate::wire::be64_value;
use crate::payload_format::{
    PacketType, packet_type_byte, packet_type_of,
    surbs_bytes, ForwardPayloadView, forward_bytes, spec_parse_forward, ReplyPayloadView,
    reply_bytes, spec_parse_reply, PingPayloadView, ping_bytes, spec_parse_ping, AckPayloadView,
    ack_bytes, spec_parse_ack, spec_take_surbs,
};

verus! {

/// No SURB gives no byte; each further SURB adds its length modulo 2^16 as
/// two big-endian bytes, then its bytes.
pub proof fn lemma_surbs_layout(s: Seq<Seq<u8>>, x: Seq<u8>)
    ensures
        surbs_bytes(Seq::empty()) == Seq::<u8>::empty(),
        surbs_bytes(s.push(x)) == surbs_bytes(s) + seq![
            ((x.len() as u16) / 256) as u8,
            ((x.len() as u16) % 256) as u8,
        ] + x,
{
    assert(s.push(x).drop_last() =~= s);
    assert(surbs_bytes(s.push(x)) =~= surbs_bytes(s) + seq![
        ((x.len() as u16) / 256) as u8,
        ((x.len() as u16) % 256) as u8,
    ] + x);
}

/// A forward payload is the byte 0x01; the sender tag's length (modulo
/// 2^16, big-endian) and the tag; the UTF-8 destination's length and bytes;
/// the SURB count; the SURBs; then the data.
pub proof fn lemma_forward_layout(p: ForwardPayloadView)
    ensures
        forward_bytes(p) == seq![
            0x01u8,
            ((p.sender_tag.len() as u16) / 256) as u8,
            ((p.sender_tag.len() as u16) % 256) as u8,
        ] + p.sender_tag + seq![
            ((encode_utf8(p.destination).len() as u16) / 256) as u8,
            ((encode_utf8(p.destination).len() as u16) % 256) as u8,
        ] + encode_utf8(p.destination) + seq![
            ((p.surbs.len() as u16) / 256) as u8,
            ((p.surbs.len() as u16) % 256) as u8,
        ] + surbs_bytes(p.surbs) + p.data,
{
    assert(forward_bytes(p) =~= seq![
        0x01u8,
        ((p.sender_tag.len() as u16) / 256) as u8,
        ((p.sender_tag.len() as u16) % 256) as u8,
    ] + p.sender_tag + seq![
        ((encode_utf8(p.destination).len() as u16) / 256) as u8,
        ((encode_utf8(p.destination).len() as u16) % 256) as u8,
    ] + encode_utf8(p.destination) + seq![
        ((p.surbs.len() as u16) / 256) as u8,
        ((p.surbs.len() as u16) % 256) as u8,
    ] + surbs_bytes(p.surbs) + p.data);
}

/// A parsed forward payload starts with the byte 0x01, and its sender tag
/// is the bytes after the tag's two length bytes, as many as they say.
pub proof fn lemma_forward_parse_reads(b: Seq<u8>)
    requires
        spec_parse_forward(b) is Ok,
    ensures
        b[0] == 0x01,
        b.len() >= 3 + b[1] * 256 + b[2],
        spec_parse_forward(b)->Ok_0.sender_tag == b.subrange(3, 3 + b[1] * 256 + b[2]),
{
}

/// A reply payload is the byte 0x02 followed by the data; any bytes that
/// start with 0x02 parse as a reply whose data is the rest.
pub proof fn lemma_reply_layout(p: ReplyPayloadView, b: Seq<u8>)
    ensures
        reply_bytes(p).len() == p.data.len() + 1,
        reply_bytes(p)[0] == 0x02,
        reply_bytes(p).subrange(1, p.data.len() + 1int) == p.data,
        b.len() > 0 && b[0] == 0x02 ==> spec_parse_reply(b) == Ok::<ReplyPayloadView, PayloadError>(
            ReplyPayloadView { data: b.subrange(1, b.len() as int) },
        ),
{
    assert(reply_bytes(p).subrange(1, p.data.len() + 1int) =~= p.data);
}

/// A ping payload is the byte 0x03, the hop index, the SURB count modulo
/// 2^16 (big-endian), then the SURBs.
pub proof fn lemma_ping_layout(p: PingPayloadView)
    ensures
        ping_bytes(p).len() == 4 + surbs_bytes(p.surbs).len(),
        ping_bytes(p)[0] == 0x03,
        ping_bytes(p)[1] == p.hop_index,
        ping_bytes(p)[2] == ((p.surbs.len() as u16) / 256) as u8,
        ping_bytes(p)[3] == ((p.surbs.len() as u16) % 256) as u8,
        ping_bytes(p).subrange(4, ping_bytes(p).len() as int) == surbs_bytes(p.surbs),
{
    assert(ping_bytes(p).subrange(4, ping_bytes(p).len() as int) =~= surbs_bytes(p.surbs));
}

/// A parsed ping takes its hop index from byte 1 and as many SURBs as bytes
/// 2 and 3 say; bytes that give a hop index and a SURB count of zero parse
/// to that hop index and no SURB.
pub proof fn lemma_ping_parse_reads(b: Seq<u8>)
    ensures
        spec_parse_ping(b) is Ok ==> {
            &&& b.len() >= 4
            &&& b[0] == 0x03
            &&& spec_parse_ping(b)->Ok_0.hop_index == b[1]
            &&& spec_parse_ping(b)->Ok_0.surbs.len() == b[2] * 256 + b[3]
        },
        b.len() >= 4 && b[0] == 0x03 && b[2] == 0 && b[3] == 0 ==> spec_parse_ping(b) == Ok::<
            PingPayloadView,
            PayloadError,
        >(PingPayloadView { hop_index: b[1], surbs: Seq::empty() }),
{
    if spec_parse_ping(b) is Ok {
        lemma_take_surbs_count(b, 4, ((b[2] * 256 + b[3]) as u16) as nat);
    }
}

proof fn lemma_take_surbs_count(b: Seq<u8>, off: int, n: nat)
    requires
        spec_take_surbs(b, off, n) is Ok,
    ensures
        spec_take_surbs(b, off, n)->Ok_0.0.len() == n,
    decreases n,
{
    if n > 0 {
        lemma_take_surbs_count(b, off, (n - 1) as nat);
    }
}

/// An ACK payload is the byte 0x04, the hop index, the node address, then
/// the timestamp as eight big-endian bytes.
pub proof fn lemma_ack_layout(p: AckPayloadView)
    requires
        p.node_address.len() == 32,
    ensures
        ack_bytes(p).len() == 42,
        ack_bytes(p)[0] == 0x04,
        ack_bytes(p)[1] == p.hop_index,
        ack_bytes(p).subrange(2, 34) == p.node_address,
        ack_bytes(p)[34] as int == p.timestamp / 0x100000000000000 % 256,
        ack_bytes(p)[35] as int == p.timestamp / 0x1000000000000 % 256,
        ack_bytes(p)[36] as int == p.timestamp / 0x10000000000 % 256,
        ack_bytes(p)[37] as int == p.timestamp / 0x100000000 % 256,
        ack_bytes(p)[38] as int == p.timestamp / 0x1000000 % 256,
        ack_bytes(p)[39] as int == p.timestamp / 0x10000 % 256,
        ack_bytes(p)[40] as int == p.timestamp / 0x100 % 256,
        ack_bytes(p)[41] as int == p.timestamp % 256,
{
    let n = p.timestamp;
    assert(ack_bytes(p).subrange(2, 34) =~= p.node_address);
    assert((((n >> 56u64) as u8) as u64) == n / 0x100000000000000u64 % 256 && (((n
        >> 48u64) as u8) as u64) == n / 0x1000000000000u64 % 256 && (((n >> 40u64) as u8) as u64)
        == n / 0x10000000000u64 % 256 && (((n >> 32u64) as u8) as u64) == n / 0x100000000u64 % 256
        && (((n >> 24u64) as u8) as u64) == n / 0x1000000u64 % 256 && (((n >> 16u64) as u8) as u64)
        == n / 0x10000u64 % 256 && (((n >> 8u64) as u8) as u64) == n / 0x100u64 % 256 && ((n as u8)
        as u64) == n % 256) by (bit_vector);
}

/// Bytes that start with 0x04 and hold at least 42 bytes parse as an ACK:
/// the hop index is byte 1, the node address bytes 2..34, and the timestamp
/// the big-endian value of bytes 34..42.
pub proof fn lemma_ack_parse_reads(b: Seq<u8>)
    requires
        b.len() >= 42,
        b[0] == 0x04,
    ensures
        spec_parse_ack(b) is Ok,
        spec_parse_ack(b)->Ok_0.hop_index == b[1],
        spec_parse_ack(b)->Ok_0.node_address == b.subrange(2, 34),
        spec_parse_ack(b)->Ok_0.timestamp as int == b[34] * 0x100000000000000 + b[35]
            * 0x1000000000000 + b[36] * 0x10000000000 + b[37] * 0x100000000 + b[38] * 0x1000000
            + b[39] * 0x10000 + b[40] * 0x100 + b[41],
{
    let t = b.subrange(34, 42);
    let (b0, b1, b2, b3, b4, b5, b6, b7) = (t[0], t[1], t[2], t[3], t[4], t[5], t[6], t[7]);
    assert(((b0 as u64) << 56u64 | (b1 as u64) << 48u64 | (b2 as u64) << 40u64 | (b3 as u64) << 32u64
        | (b4 as u64) << 24u64 | (b5 as u64) << 16u64 | (b6 as u64) << 8u64 | (b7 as u64)) == (b0
        as u64) * 0x100000000000000u64 + (b1 as u64) * 0x1000000000000u64 + (b2 as u64)
        * 0x10000000000u64 + (b3 as u64) * 0x100000000u64 + (b4 as u64) * 0x1000000u64 + (b5 as u64)
        * 0x10000u64 + (b6 as u64) * 0x100u64 + (b7 as u64)) by (bit_vector);
    assert(be64_value(t) == spec_parse_ack(b)->Ok_0.timestamp);
}

/// The type bytes: 0x01 forward, 0x02 reply, 0x03 ping, 0x04 ACK; no other
/// byte names a type.
pub proof fn lemma_type_bytes(b: u8)
    ensures
        packet_type_byte(PacketType::Forward) == 0x01,
        packet_type_byte(PacketType::Reply) == 0x02,
        packet_type_byte(PacketType::Ping) == 0x03,
        packet_type_byte(PacketType::Ack) == 0x04,
        (b == 0 || b > 4) <==> packet_type_of(b) is None,
{
}

/// Which error each parser gives for bytes that are empty, that start with
/// a byte naming no type, or that start with another type's byte.
pub proof fn lemma_parse_type_errors(b: Seq<u8>)
    ensures
        b.len() == 0 ==> {
            &&& spec_parse_forward(b) == Err::<ForwardPayloadView, PayloadError>(PayloadError::Empty)
            &&& spec_parse_reply(b) == Err::<ReplyPayloadView, PayloadError>(PayloadError::Empty)
            &&& spec_parse_ping(b) == Err::<PingPayloadView, PayloadError>(PayloadError::Empty)
            &&& spec_parse_ack(b) == Err::<AckPayloadView, PayloadError>(PayloadError::Empty)
        },
        b.len() > 0 && (b[0] == 0 || b[0] > 4) ==> {
            &&& spec_parse_forward(b) == Err::<ForwardPayloadView, PayloadError>(
                PayloadError::InvalidPacketType(b[0]),
            )
            &&& spec_parse_reply(b) == Err::<ReplyPayloadView, PayloadError>(
                PayloadError::InvalidPacketType(b[0]),
            )
            &&& spec_parse_ping(b) == Err::<PingPayloadView, PayloadError>(
                PayloadError::InvalidPacketType(b[0]),
            )
            &&& spec_parse_ack(b) == Err::<AckPayloadView, PayloadError>(
                PayloadError::InvalidPacketType(b[0]),
            )
        },
        b.len() > 0 && b[0] == 0x02 ==> spec_parse_forward(b) == Err::<
            ForwardPayloadView,
            PayloadError,
        >(
            PayloadError::UnexpectedPacketType {
                expected: PacketType::Forward,
                found: PacketType::Reply,
            },
        ),
        b.len() > 0 && b[0] == 0x01 ==> spec_parse_ack(b) == Err::<AckPayloadView, PayloadError>(
            PayloadError::UnexpectedPacketType {
                expected: PacketType::Ack,
                found: PacketType::Forward,
            },
        ),
{
}

/// Which error each parser gives for bytes of its own type that end too
/// early: a forward payload without its two tag-length bytes or without the
/// tag that they announce; a ping without its hop index or its SURB count;
/// an ACK under 42 bytes, refused with its length.
pub proof fn lemma_parse_short_errors(b: Seq<u8>)
    ensures
        b.len() > 0 && b[0] == 0x01 && b.len() < 3 ==> spec_parse_forward(b) == Err::<
            ForwardPayloadView,
            PayloadError,
        >(PayloadError::TooShortForSenderTagLength),
        b.len() >= 3 && b[0] == 0x01 && b.len() < 3 + b[1] * 256 + b[2] ==> spec_parse_forward(b)
            == Err::<ForwardPayloadView, PayloadError>(PayloadError::TooShortForSenderTag),
        b.len() == 1 && b[0] == 0x03 ==> spec_parse_ping(b) == Err::<PingPayloadView, PayloadError>(
            PayloadError::TooShortForHopIndex,
        ),
        (b.len() == 2 || b.len() == 3) && b[0] == 0x03 ==> spec_parse_ping(b) == Err::<
            PingPayloadView,
            PayloadError,
        >(PayloadError::TooShortForSurbCount),
        b.len() > 0 && b.len() < 42 && b[0] == 0x04 ==> spec_parse_ack(b) == Err::<
            AckPayloadView,
            PayloadError,
        >(PayloadError::AckTooShort(b.len() as usize)),
{
}

} // verus!
