//! What the payload encoders and parsers promise together: each parser
//! gives back what its encoder wrote, each encoder gives back the bytes that
//! its parser accepted, and the type byte keeps payloads of different types
//! apart.
use vstd::prelude::*;
use vstd::utf8::{encode_utf8, encode_utf8_valid_utf8, encode_utf8_decode_utf8, decode_utf8_encode_utf8};
use crate::error::PayloadError;
use crate::wire::{be16, be16_value, be64, field16, lemma_be16_roundtrip, lemma_be16_value_roundtrip, lemma_be64_roundtrip, lemma_be64_value_roundtrip};
use crate::payload_format::{
    PacketType, packet_type_byte, packet_type_of, spec_take_field16, spec_take_surbs, surbs_bytes,
    ForwardPayloadView, forward_bytes, spec_parse_forward, ReplyPayloadView, reply_bytes,
    spec_parse_reply, PingPayloadView, ping_bytes, spec_parse_ping, AckPayloadView, ack_bytes,
    spec_parse_ack,
};

verus! {

/// Every SURB is short enough for its 16-bit length field.
pub open spec fn surbs_fit(surbs: Seq<Seq<u8>>) -> bool {
    forall|i: int| 0 <= i < surbs.len() ==> #[trigger] surbs[i].len() <= 0xFFFF
}

/// Every length and count of a forward payload fits its 16-bit field.
pub open spec fn forward_fits(p: ForwardPayloadView) -> bool {
    &&& p.sender_tag.len() <= 0xFFFF
    &&& encode_utf8(p.destination).len() <= 0xFFFF
    &&& p.surbs.len() <= 0xFFFF
    &&& surbs_fit(p.surbs)
}

/// The SURB count and every SURB length of a ping payload fit their 16-bit
/// fields.
pub open spec fn ping_fits(p: PingPayloadView) -> bool {
    &&& p.surbs.len() <= 0xFFFF
    &&& surbs_fit(p.surbs)
}

proof fn lemma_take_field16_of(b: Seq<u8>, off: int, x: Seq<u8>, le: PayloadError, be: PayloadError)
    requires
        x.len() <= 0xFFFF,
        0 <= off,
        off + 2 + x.len() <= b.len(),
        b.subrange(off, off + 2 + x.len()) == field16(x),
    ensures
        spec_take_field16(b, off, le, be) == Ok::<(Seq<u8>, int), PayloadError>(
            (x, off + 2 + x.len()),
        ),
{
    let f = field16(x);
    assert(b[off] == f[0] && b[off + 1] == f[1]) by {
        assert(b.subrange(off, off + 2 + x.len())[0] == b[off]);
        assert(b.subrange(off, off + 2 + x.len())[1] == b[off + 1]);
    }
    lemma_be16_roundtrip(x.len() as u16);
    assert(b.subrange(off + 2, off + 2 + x.len()) =~= x) by {
        assert forall|k: int| 0 <= k < x.len() implies b.subrange(off + 2, off + 2 + x.len())[k]
            == x[k] by {
            assert(b.subrange(off, off + 2 + x.len())[k + 2] == b[off + 2 + k]);
        }
    }
}

proof fn lemma_take_field16_shape(b: Seq<u8>, off: int, le: PayloadError, be: PayloadError)
    requires
        0 <= off,
        spec_take_field16(b, off, le, be) is Ok,
    ensures
        ({
            let (x, o) = spec_take_field16(b, off, le, be)->Ok_0;
            &&& x.len() <= 0xFFFF
            &&& o == off + 2 + x.len()
            &&& o <= b.len()
            &&& b.subrange(off, o) == field16(x)
        }),
{
    let (x, o) = spec_take_field16(b, off, le, be)->Ok_0;
    lemma_be16_value_roundtrip(b[off], b[off + 1]);
    assert(b.subrange(off, o) =~= field16(x));
}

proof fn lemma_surbs_bytes_len(s: Seq<Seq<u8>>)
    ensures
        surbs_bytes(s).len() >= 0,
    decreases s.len(),
{
}

proof fn lemma_take_surbs_of(b: Seq<u8>, off: int, s: Seq<Seq<u8>>)
    requires
        surbs_fit(s),
        0 <= off,
        off + surbs_bytes(s).len() <= b.len(),
        b.subrange(off, off + surbs_bytes(s).len()) == surbs_bytes(s),
    ensures
        spec_take_surbs(b, off, s.len()) == Ok::<(Seq<Seq<u8>>, int), PayloadError>(
            (s, off + surbs_bytes(s).len()),
        ),
    decreases s.len(),
{
    if s.len() > 0 {
        let init = s.drop_last();
        let last = s.last();
        let ib = surbs_bytes(init);
        let whole = surbs_bytes(s);
        assert(whole == ib + field16(last));
        assert(surbs_fit(init)) by {
            assert forall|i: int| 0 <= i < init.len() implies #[trigger] init[i].len() <= 0xFFFF by {
                assert(init[i] == s[i]);
            }
        }
        assert(last.len() <= 0xFFFF) by {
            assert(s[s.len() - 1].len() <= 0xFFFF);
        }
        assert(b.subrange(off, off + ib.len()) =~= ib) by {
            assert forall|k: int| 0 <= k < ib.len() implies b.subrange(off, off + ib.len())[k]
                == ib[k] by {
                assert(b.subrange(off, off + whole.len())[k] == b[off + k]);
                assert(whole[k] == ib[k]);
            }
        }
        lemma_take_surbs_of(b, off, init);
        let o = off + ib.len();
        assert(b.subrange(o, o + 2 + last.len()) =~= field16(last)) by {
            assert forall|k: int| 0 <= k < 2 + last.len() implies b.subrange(
                o,
                o + 2 + last.len(),
            )[k] == field16(last)[k] by {
                assert(b.subrange(off, off + whole.len())[ib.len() + k] == b[o + k]);
                assert(whole[ib.len() + k] == field16(last)[k]);
            }
        }
        lemma_take_field16_of(
            b,
            o,
            last,
            PayloadError::TooShortForSurbLength,
            PayloadError::TooShortForSurb,
        );
        assert(init.push(last) =~= s);
    } else {
        assert(s =~= Seq::<Seq<u8>>::empty());
    }
}

proof fn lemma_take_surbs_shape(b: Seq<u8>, off: int, n: nat)
    requires
        0 <= off <= b.len(),
        spec_take_surbs(b, off, n) is Ok,
    ensures
        ({
            let (s, o) = spec_take_surbs(b, off, n)->Ok_0;
            &&& s.len() == n
            &&& surbs_fit(s)
            &&& off <= o <= b.len()
            &&& b.subrange(off, o) == surbs_bytes(s)
        }),
    decreases n,
{
    if n > 0 {
        lemma_take_surbs_shape(b, off, (n - 1) as nat);
        let (init, o1) = spec_take_surbs(b, off, (n - 1) as nat)->Ok_0;
        lemma_take_field16_shape(
            b,
            o1,
            PayloadError::TooShortForSurbLength,
            PayloadError::TooShortForSurb,
        );
        let (last, o2) = spec_take_field16(
            b,
            o1,
            PayloadError::TooShortForSurbLength,
            PayloadError::TooShortForSurb,
        )->Ok_0;
        let s = init.push(last);
        assert(s.drop_last() =~= init);
        assert(surbs_fit(s)) by {
            assert forall|i: int| 0 <= i < s.len() implies #[trigger] s[i].len() <= 0xFFFF by {
                if i < init.len() {
                    assert(s[i] == init[i]);
                }
            }
        }
        assert(b.subrange(off, o2) =~= b.subrange(off, o1) + b.subrange(o1, o2));
    }
}

/// Parsing the bytes of a forward payload gives the payload back, when its
/// lengths and counts fit their 16-bit fields.
pub proof fn lemma_forward_roundtrip(p: ForwardPayloadView)
    requires
        forward_fits(p),
    ensures
        spec_parse_forward(forward_bytes(p)) == Ok::<ForwardPayloadView, PayloadError>(p),
{
    let b = forward_bytes(p);
    let tag = p.sender_tag;
    let dest = encode_utf8(p.destination);
    let sb = surbs_bytes(p.surbs);
    lemma_surbs_bytes_len(p.surbs);
    let o1: int = 3 + tag.len() as int;
    let o2: int = o1 + 2 + dest.len();
    let o3: int = o2 + 2 + sb.len();
    assert(b =~= seq![0x01u8] + field16(tag) + field16(dest) + be16(p.surbs.len() as u16) + sb
        + p.data);
    assert(b.len() == o3 + p.data.len());
    assert(b.subrange(1, o1) =~= field16(tag));
    lemma_take_field16_of(
        b,
        1,
        tag,
        PayloadError::TooShortForSenderTagLength,
        PayloadError::TooShortForSenderTag,
    );
    assert(b.subrange(o1, o2) =~= field16(dest));
    lemma_take_field16_of(
        b,
        o1,
        dest,
        PayloadError::TooShortForDestinationLength,
        PayloadError::TooShortForDestination,
    );
    encode_utf8_valid_utf8(p.destination);
    encode_utf8_decode_utf8(p.destination);
    assert(b[o2] == be16(p.surbs.len() as u16)[0] && b[o2 + 1] == be16(p.surbs.len() as u16)[1]);
    lemma_be16_roundtrip(p.surbs.len() as u16);
    assert(b.subrange(o2 + 2, o3) =~= sb);
    lemma_take_surbs_of(b, o2 + 2, p.surbs);
    assert(b.subrange(o3, b.len() as int) =~= p.data);
}

/// Encoding what the forward parser accepted gives back the parsed bytes.
pub proof fn lemma_forward_reencode(b: Seq<u8>)
    requires
        spec_parse_forward(b) is Ok,
    ensures
        forward_bytes(spec_parse_forward(b)->Ok_0) == b,
        forward_fits(spec_parse_forward(b)->Ok_0),
{
    let p = spec_parse_forward(b)->Ok_0;
    lemma_take_field16_shape(
        b,
        1,
        PayloadError::TooShortForSenderTagLength,
        PayloadError::TooShortForSenderTag,
    );
    let (tag, o1) = spec_take_field16(
        b,
        1,
        PayloadError::TooShortForSenderTagLength,
        PayloadError::TooShortForSenderTag,
    )->Ok_0;
    lemma_take_field16_shape(
        b,
        o1,
        PayloadError::TooShortForDestinationLength,
        PayloadError::TooShortForDestination,
    );
    let (dest, o2) = spec_take_field16(
        b,
        o1,
        PayloadError::TooShortForDestinationLength,
        PayloadError::TooShortForDestination,
    )->Ok_0;
    decode_utf8_encode_utf8(dest);
    let count = be16_value(b[o2], b[o2 + 1]);
    lemma_take_surbs_shape(b, o2 + 2, count as nat);
    let (surbs, o3) = spec_take_surbs(b, o2 + 2, count as nat)->Ok_0;
    lemma_be16_value_roundtrip(b[o2], b[o2 + 1]);
    assert(b.subrange(o2, o2 + 2) =~= be16(surbs.len() as u16));
    assert(b =~= b.subrange(0, 1) + b.subrange(1, o1) + b.subrange(o1, o2) + b.subrange(o2, o2 + 2)
        + b.subrange(o2 + 2, o3) + b.subrange(o3, b.len() as int));
    assert(b.subrange(0, 1) =~= seq![0x01u8]);
}

/// Parsing the bytes of a reply payload gives the payload back.
pub proof fn lemma_reply_roundtrip(p: ReplyPayloadView)
    ensures
        spec_parse_reply(reply_bytes(p)) == Ok::<ReplyPayloadView, PayloadError>(p),
{
    assert(reply_bytes(p).subrange(1, reply_bytes(p).len() as int) =~= p.data);
}

/// Encoding what the reply parser accepted gives back the parsed bytes.
pub proof fn lemma_reply_reencode(b: Seq<u8>)
    requires
        spec_parse_reply(b) is Ok,
    ensures
        reply_bytes(spec_parse_reply(b)->Ok_0) == b,
{
    assert(reply_bytes(spec_parse_reply(b)->Ok_0) =~= b);
}

/// Parsing the bytes of a ping payload gives the payload back, when its SURB
/// count and lengths fit their 16-bit fields.
pub proof fn lemma_ping_roundtrip(p: PingPayloadView)
    requires
        ping_fits(p),
    ensures
        spec_parse_ping(ping_bytes(p)) == Ok::<PingPayloadView, PayloadError>(p),
{
    let b = ping_bytes(p);
    let sb = surbs_bytes(p.surbs);
    lemma_surbs_bytes_len(p.surbs);
    lemma_be16_roundtrip(p.surbs.len() as u16);
    assert(b.subrange(4, 4 + sb.len() as int) =~= sb);
    lemma_take_surbs_of(b, 4, p.surbs);
}

/// Encoding what the ping parser accepted gives back the bytes that it read:
/// a prefix of the parsed bytes (what follows the last SURB is not read).
pub proof fn lemma_ping_reencode(b: Seq<u8>)
    requires
        spec_parse_ping(b) is Ok,
    ensures
        ping_bytes(spec_parse_ping(b)->Ok_0).len() <= b.len(),
        b.subrange(0, ping_bytes(spec_parse_ping(b)->Ok_0).len() as int) == ping_bytes(
            spec_parse_ping(b)->Ok_0,
        ),
        ping_fits(spec_parse_ping(b)->Ok_0),
{
    let p = spec_parse_ping(b)->Ok_0;
    let count = be16_value(b[2], b[3]);
    lemma_take_surbs_shape(b, 4, count as nat);
    let (surbs, o) = spec_take_surbs(b, 4, count as nat)->Ok_0;
    lemma_be16_value_roundtrip(b[2], b[3]);
    assert(b.subrange(0, o) =~= seq![0x03u8, b[1]] + b.subrange(2, 4) + b.subrange(4, o));
    assert(b.subrange(2, 4) =~= be16(surbs.len() as u16));
    assert(ping_bytes(p) =~= b.subrange(0, o));
}

/// Parsing the bytes of an ACK payload gives the payload back, when its node
/// address has 32 bytes.
pub proof fn lemma_ack_roundtrip(p: AckPayloadView)
    requires
        p.node_address.len() == 32,
    ensures
        spec_parse_ack(ack_bytes(p)) == Ok::<AckPayloadView, PayloadError>(p),
{
    let b = ack_bytes(p);
    assert(b.subrange(2, 34) =~= p.node_address);
    assert(b.subrange(34, 42) =~= be64(p.timestamp));
    lemma_be64_roundtrip(p.timestamp);
}

/// Encoding what the ACK parser accepted gives back its first 42 bytes, the
/// ones that it read.
pub proof fn lemma_ack_reencode(b: Seq<u8>)
    requires
        spec_parse_ack(b) is Ok,
    ensures
        ack_bytes(spec_parse_ack(b)->Ok_0) == b.subrange(0, 42),
{
    lemma_be64_value_roundtrip(b.subrange(34, 42));
    assert(ack_bytes(spec_parse_ack(b)->Ok_0) =~= b.subrange(0, 42));
}

/// Each packet type and its byte stand for one another.
pub proof fn lemma_packet_type_byte(t: PacketType, b: u8)
    ensures
        packet_type_of(packet_type_byte(t)) == Some(t),
        packet_type_of(b) matches Some(u) ==> packet_type_byte(u) == b,
{
}

/// The bytes of a forward payload start with its type byte, and no parser
/// of another payload type accepts them.
pub proof fn lemma_forward_bytes_typed(p: ForwardPayloadView)
    ensures
        forward_bytes(p)[0] == packet_type_byte(PacketType::Forward),
        spec_parse_reply(forward_bytes(p)) == Err::<ReplyPayloadView, PayloadError>(
            PayloadError::UnexpectedPacketType {
                expected: PacketType::Reply,
                found: PacketType::Forward,
            },
        ),
        spec_parse_ping(forward_bytes(p)) == Err::<PingPayloadView, PayloadError>(
            PayloadError::UnexpectedPacketType {
                expected: PacketType::Ping,
                found: PacketType::Forward,
            },
        ),
        spec_parse_ack(forward_bytes(p)) == Err::<AckPayloadView, PayloadError>(
            PayloadError::UnexpectedPacketType {
                expected: PacketType::Ack,
                found: PacketType::Forward,
            },
        ),
{
}

/// The bytes of a reply payload start with its type byte, and no parser of
/// another payload type accepts them.
pub proof fn lemma_reply_bytes_typed(p: ReplyPayloadView)
    ensures
        reply_bytes(p)[0] == packet_type_byte(PacketType::Reply),
        spec_parse_forward(reply_bytes(p)) == Err::<ForwardPayloadView, PayloadError>(
            PayloadError::UnexpectedPacketType {
                expected: PacketType::Forward,
                found: PacketType::Reply,
            },
        ),
        spec_parse_ping(reply_bytes(p)) == Err::<PingPayloadView, PayloadError>(
            PayloadError::UnexpectedPacketType {
                expected: PacketType::Ping,
                found: PacketType::Reply,
            },
        ),
        spec_parse_ack(reply_bytes(p)) == Err::<AckPayloadView, PayloadError>(
            PayloadError::UnexpectedPacketType {
                expected: PacketType::Ack,
                found: PacketType::Reply,
            },
        ),
{
}

/// The bytes of a ping payload start with its type byte, and no parser of
/// another payload type accepts them.
pub proof fn lemma_ping_bytes_typed(p: PingPayloadView)
    ensures
        ping_bytes(p)[0] == packet_type_byte(PacketType::Ping),
        spec_parse_forward(ping_bytes(p)) == Err::<ForwardPayloadView, PayloadError>(
            PayloadError::UnexpectedPacketType {
                expected: PacketType::Forward,
                found: PacketType::Ping,
            },
        ),
        spec_parse_reply(ping_bytes(p)) == Err::<ReplyPayloadView, PayloadError>(
            PayloadError::UnexpectedPacketType {
                expected: PacketType::Reply,
                found: PacketType::Ping,
            },
        ),
        spec_parse_ack(ping_bytes(p)) == Err::<AckPayloadView, PayloadError>(
            PayloadError::UnexpectedPacketType {
                expected: PacketType::Ack,
                found: PacketType::Ping,
            },
        ),
{
}

/// The bytes of an ACK payload start with its type byte, and no parser of
/// another payload type accepts them.
pub proof fn lemma_ack_bytes_typed(p: AckPayloadView)
    ensures
        ack_bytes(p)[0] == packet_type_byte(PacketType::Ack),
        spec_parse_forward(ack_bytes(p)) == Err::<ForwardPayloadView, PayloadError>(
            PayloadError::UnexpectedPacketType {
                expected: PacketType::Forward,
                found: PacketType::Ack,
            },
        ),
        spec_parse_reply(ack_bytes(p)) == Err::<ReplyPayloadView, PayloadError>(
            PayloadError::UnexpectedPacketType {
                expected: PacketType::Reply,
                found: PacketType::Ack,
            },
        ),
        spec_parse_ping(ack_bytes(p)) == Err::<PingPayloadView, PayloadError>(
            PayloadError::UnexpectedPacketType {
                expected: PacketType::Ping,
                found: PacketType::Ack,
            },
        ),
{
}

} // verus!
