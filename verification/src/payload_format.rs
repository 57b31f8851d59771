//! Payload formats for type-safe packet handling.
//!
//! Every payload starts with a 1-byte packet type field, followed by
//! type-specific data. Lengths and counts are big-endian 16-bit values.
use vstd::prelude::*;
use vstd::utf8::{encode_utf8, decode_utf8, valid_utf8};
use vstd::slice::{slice_subrange, slice_to_vec};
use crate::error::PayloadError;
use crate::wire::{be16, be16_value, be64, be64_value, field16, read_be16, push_be16};

verus! {

/// Packet type discriminator (first byte of payload)
#[derive(Debug, Clone, Copy, PartialEq, Eq, Structural)]
pub enum PacketType {
    /// Forward packet to exit node
    Forward,
    /// SURB reply packet returning to client
    Reply,
    /// Health check ping packet
    Ping,
    /// Health check acknowledgment
    Ack,
}

/// The byte that stands for a packet type.
pub open spec fn packet_type_byte(t: PacketType) -> u8 {
    match t {
        PacketType::Forward => 0x01,
        PacketType::Reply => 0x02,
        PacketType::Ping => 0x03,
        PacketType::Ack => 0x04,
    }
}

/// The packet type that a byte stands for, if any.
pub open spec fn packet_type_of(b: u8) -> Option<PacketType> {
    if b == 0x01 {
        Some(PacketType::Forward)
    } else if b == 0x02 {
        Some(PacketType::Reply)
    } else if b == 0x03 {
        Some(PacketType::Ping)
    } else if b == 0x04 {
        Some(PacketType::Ack)
    } else {
        None
    }
}

impl PacketType {
    pub fn from_byte(byte: u8) -> (r: Result<Self, PayloadError>)
        ensures
            r == (match packet_type_of(byte) {
                Some(t) => Ok::<PacketType, PayloadError>(t),
                None => Err(PayloadError::InvalidPacketType(byte)),
            }),
    {
        match byte {
            0x01 => Ok(PacketType::Forward),
            0x02 => Ok(PacketType::Reply),
            0x03 => Ok(PacketType::Ping),
            0x04 => Ok(PacketType::Ack),
            _ => Err(PayloadError::InvalidPacketType(byte)),
        }
    }

    pub fn to_byte(self) -> (b: u8)
        ensures
            b == packet_type_byte(self),
    {
        match self {
            PacketType::Forward => 0x01,
            PacketType::Reply => 0x02,
            PacketType::Ping => 0x03,
            PacketType::Ack => 0x04,
        }
    }
}

/// What a parser of payloads of type `expected` answers for the type byte
/// `b`: `None` when the byte names `expected`, else the error.
pub open spec fn type_byte_error(b: u8, expected: PacketType) -> Option<PayloadError> {
    match packet_type_of(b) {
        None => Some(PayloadError::InvalidPacketType(b)),
        Some(t) => if t == expected {
            None
        } else {
            Some(PayloadError::UnexpectedPacketType { expected, found: t })
        },
    }
}

/// Reads a length-prefixed field at `off`; the result holds the field and
/// the offset just past it.
pub open spec fn spec_take_field16(
    b: Seq<u8>,
    off: int,
    len_err: PayloadError,
    body_err: PayloadError,
) -> Result<(Seq<u8>, int), PayloadError> {
    if b.len() < off + 2 {
        Err(len_err)
    } else {
        let n = be16_value(b[off], b[off + 1]) as int;
        if b.len() < off + 2 + n {
            Err(body_err)
        } else {
            Ok((b.subrange(off + 2, off + 2 + n), off + 2 + n))
        }
    }
}

/// Reads `count` length-prefixed SURBs one after the other from `off`.
pub open spec fn spec_take_surbs(b: Seq<u8>, off: int, count: nat) -> Result<
    (Seq<Seq<u8>>, int),
    PayloadError,
>
    decreases count,
{
    if count == 0 {
        Ok((seq![], off))
    } else {
        match spec_take_surbs(b, off, (count - 1) as nat) {
            Ok((surbs, o)) => match spec_take_field16(
                b,
                o,
                PayloadError::TooShortForSurbLength,
                PayloadError::TooShortForSurb,
            ) {
                Ok((surb, o2)) => Ok((surbs.push(surb), o2)),
                Err(e) => Err(e),
            },
            Err(e) => Err(e),
        }
    }
}

/// The SURBs, each preceded by its length.
pub open spec fn surbs_bytes(surbs: Seq<Seq<u8>>) -> Seq<u8>
    decreases surbs.len(),
{
    if surbs.len() == 0 {
        seq![]
    } else {
        surbs_bytes(surbs.drop_last()) + field16(surbs.last())
    }
}

proof fn lemma_take_surbs_err_propagates(b: Seq<u8>, off: int, i: nat, n: nat, e: PayloadError)
    requires
        i <= n,
        spec_take_surbs(b, off, i) == Err::<(Seq<Seq<u8>>, int), PayloadError>(e),
    ensures
        spec_take_surbs(b, off, n) == Err::<(Seq<Seq<u8>>, int), PayloadError>(e),
    decreases n,
{
    if n > i {
        lemma_take_surbs_err_propagates(b, off, i, (n - 1) as nat, e);
    }
}

/// Copies `bytes[from..to]`.
fn copy_range(bytes: &[u8], from: usize, to: usize) -> (r: Vec<u8>)
    requires
        from <= to <= bytes@.len(),
    ensures
        r@ == bytes@.subrange(from as int, to as int),
{
    slice_to_vec(slice_subrange(bytes, from, to))
}

/// Appends `s`.
fn push_bytes(out: &mut Vec<u8>, s: &[u8])
    ensures
        final(out)@ == old(out)@ + s@,
{
    out.extend_from_slice(s);
    assert(out@ =~= old(out)@ + s@);
}

/// Appends `s` preceded by its length.
fn push_field16(out: &mut Vec<u8>, s: &[u8])
    ensures
        final(out)@ == old(out)@ + field16(s@),
{
    push_be16(out, s.len() as u16);
    push_bytes(out, s);
    assert(out@ =~= old(out)@ + field16(s@));
}

/// Appends the SURBs, each preceded by its length.
fn push_surbs(out: &mut Vec<u8>, surbs: &Vec<Vec<u8>>)
    ensures
        final(out)@ == old(out)@ + surbs_bytes(surbs.deep_view()),
{
    let ghost start = out@;
    let ghost all = surbs.deep_view();
    for i in 0..surbs.len()
        invariant
            all == surbs.deep_view(),
            out@ == start + surbs_bytes(all.take(i as int)),
    {
        push_field16(out, surbs[i].as_slice());
        assert(all.take(i + 1).drop_last() =~= all.take(i as int));
        assert(out@ =~= start + surbs_bytes(all.take(i + 1)));
    }
    assert(all.take(surbs.len() as int) =~= all);
}

/// Reads a length-prefixed field at `offset`.
fn take_field16(bytes: &[u8], offset: usize, len_err: PayloadError, body_err: PayloadError) -> (r:
    Result<(Vec<u8>, usize), PayloadError>)
    requires
        offset <= bytes@.len(),
    ensures
        match r {
            Ok((f, o)) => spec_take_field16(bytes@, offset as int, len_err, body_err) == Ok::<
                (Seq<u8>, int),
                PayloadError,
            >((f@, o as int)),
            Err(e) => spec_take_field16(bytes@, offset as int, len_err, body_err) == Err::<
                (Seq<u8>, int),
                PayloadError,
            >(e),
        },
{
    if bytes.len() - offset < 2 {
        return Err(len_err);
    }
    let n = read_be16(bytes, offset) as usize;
    if bytes.len() - offset - 2 < n {
        return Err(body_err);
    }
    let f = copy_range(bytes, offset + 2, offset + 2 + n);
    Ok((f, offset + 2 + n))
}

/// Reads `count` length-prefixed SURBs from `offset`.
fn take_surbs(bytes: &[u8], offset: usize, count: u16) -> (r: Result<
    (Vec<Vec<u8>>, usize),
    PayloadError,
>)
    requires
        offset <= bytes@.len(),
    ensures
        match r {
            Ok((s, o)) => spec_take_surbs(bytes@, offset as int, count as nat) == Ok::<
                (Seq<Seq<u8>>, int),
                PayloadError,
            >((s.deep_view(), o as int)),
            Err(e) => spec_take_surbs(bytes@, offset as int, count as nat) == Err::<
                (Seq<Seq<u8>>, int),
                PayloadError,
            >(e),
        },
{
    let mut surbs: Vec<Vec<u8>> = Vec::new();
    let mut at = offset;
    let mut i: u16 = 0;
    assert(surbs.deep_view() =~= Seq::<Seq<u8>>::empty());
    while i < count
        invariant
            i <= count,
            at <= bytes@.len(),
            spec_take_surbs(bytes@, offset as int, i as nat) == Ok::<
                (Seq<Seq<u8>>, int),
                PayloadError,
            >((surbs.deep_view(), at as int)),
        decreases count - i,
    {
        match take_field16(
            bytes,
            at,
            PayloadError::TooShortForSurbLength,
            PayloadError::TooShortForSurb,
        ) {
            Ok((surb, next)) => {
                let ghost before = surbs.deep_view();
                assert(surb.deep_view() =~= surb@);
                surbs.push(surb);
                assert(surbs.deep_view() =~= before.push(surb@));
                at = next;
                i = i + 1;
            },
            Err(e) => {
                proof {
                    lemma_take_surbs_err_propagates(
                        bytes@,
                        offset as int,
                        (i + 1) as nat,
                        count as nat,
                        e,
                    );
                }
                return Err(e);
            },
        }
    }
    Ok((surbs, at))
}

/// A parse result seen through the payload's view.
pub open spec fn result_view<T: View>(r: Result<T, PayloadError>) -> Result<T::V, PayloadError> {
    match r {
        Ok(p) => Ok(p@),
        Err(e) => Err(e),
    }
}

/// Declares std's `FromUtf8Error`, the error of `String::from_utf8`, so that
/// it can be matched on; nothing inside it is read.
#[verifier::external_type_specification]
#[verifier::external_body]
pub struct ExFromUtf8Error(std::string::FromUtf8Error);

/// Calls `String::from_utf8`, which by its documentation succeeds exactly
/// when the bytes are valid UTF-8, and then yields the string that they
/// encode (its characters are the UTF-8 decoding of the bytes).
#[verifier::external_body]
fn string_from_utf8(bytes: Vec<u8>) -> (r: Result<String, std::string::FromUtf8Error>)
    ensures
        r is Ok <==> valid_utf8(bytes@),
        r matches Ok(s) ==> s@ == decode_utf8(bytes@),
{
    String::from_utf8(bytes)
}

/// Forward packet payload format:
/// [1 byte: type=0x01][2 bytes: sender_tag_len][sender_tag][2 bytes: dest_len][dest][2 bytes: surb_count][surb1_len: 2][surb1]...[data]
#[derive(Debug, Clone)]
pub struct ForwardPayload {
    /// Random tag identifying the sender (not revealing identity)
    pub sender_tag: Vec<u8>,
    pub destination: String,
    /// Multiple SURBs for potential reply fragments
    pub surbs: Vec<Vec<u8>>,
    pub data: Vec<u8>,
}

pub struct ForwardPayloadView {
    pub sender_tag: Seq<u8>,
    pub destination: Seq<char>,
    pub surbs: Seq<Seq<u8>>,
    pub data: Seq<u8>,
}

impl View for ForwardPayload {
    type V = ForwardPayloadView;

    open spec fn view(&self) -> ForwardPayloadView {
        ForwardPayloadView {
            sender_tag: self.sender_tag@,
            destination: self.destination@,
            surbs: self.surbs.deep_view(),
            data: self.data@,
        }
    }
}

/// The bytes of a forward payload. Every length and the SURB count are
/// written modulo 2^16.
pub open spec fn forward_bytes(p: ForwardPayloadView) -> Seq<u8> {
    seq![0x01u8] + field16(p.sender_tag) + field16(encode_utf8(p.destination)) + be16(
        p.surbs.len() as u16,
    ) + surbs_bytes(p.surbs) + p.data
}

/// What parsing `b` as a forward payload gives.
pub open spec fn spec_parse_forward(b: Seq<u8>) -> Result<ForwardPayloadView, PayloadError> {
    if b.len() == 0 {
        Err(PayloadError::Empty)
    } else {
        match type_byte_error(b[0], PacketType::Forward) {
            Some(e) => Err(e),
            None => match spec_take_field16(
                b,
                1,
                PayloadError::TooShortForSenderTagLength,
                PayloadError::TooShortForSenderTag,
            ) {
                Err(e) => Err(e),
                Ok((tag, o1)) => match spec_take_field16(
                    b,
                    o1,
                    PayloadError::TooShortForDestinationLength,
                    PayloadError::TooShortForDestination,
                ) {
                    Err(e) => Err(e),
                    Ok((dest, o2)) => if !valid_utf8(dest) {
                        Err(PayloadError::InvalidUtf8Destination)
                    } else if b.len() < o2 + 2 {
                        Err(PayloadError::TooShortForSurbCount)
                    } else {
                        match spec_take_surbs(b, o2 + 2, be16_value(b[o2], b[o2 + 1]) as nat) {
                            Err(e) => Err(e),
                            Ok((surbs, o3)) => Ok(
                                ForwardPayloadView {
                                    sender_tag: tag,
                                    destination: decode_utf8(dest),
                                    surbs,
                                    data: b.subrange(o3, b.len() as int),
                                },
                            ),
                        }
                    },
                },
            },
        }
    }
}

/// Checks the type byte of a non-empty payload.
fn check_type_byte(bytes: &[u8], expected: PacketType) -> (r: Result<(), PayloadError>)
    requires
        bytes@.len() > 0,
    ensures
        match type_byte_error(bytes@[0], expected) {
            Some(e) => r == Err::<(), PayloadError>(e),
            None => r is Ok,
        },
{
    let packet_type = match PacketType::from_byte(bytes[0]) {
        Ok(t) => t,
        Err(e) => return Err(e),
    };
    if packet_type != expected {
        return Err(PayloadError::UnexpectedPacketType { expected, found: packet_type });
    }
    Ok(())
}

impl ForwardPayload {
    /// Create a new forward payload with a single SURB (and an empty sender tag)
    pub fn new(destination: String, surb_bytes: Vec<u8>, data: Vec<u8>) -> (p: Self)
        ensures
            p@ == (ForwardPayloadView {
                sender_tag: Seq::empty(),
                destination: destination@,
                surbs: seq![surb_bytes@],
                data: data@,
            }),
    {
        let mut surbs: Vec<Vec<u8>> = Vec::new();
        let ghost sv = surb_bytes@;
        assert(surb_bytes.deep_view() =~= sv);
        surbs.push(surb_bytes);
        let p = Self { sender_tag: Vec::new(), destination, surbs, data };
        assert(p.surbs.deep_view() =~= seq![sv]);
        p
    }

    /// Create a new forward payload with multiple SURBs (and an empty sender tag)
    pub fn new_with_surbs(destination: String, surbs: Vec<Vec<u8>>, data: Vec<u8>) -> (p: Self)
        ensures
            p@ == (ForwardPayloadView {
                sender_tag: Seq::empty(),
                destination: destination@,
                surbs: surbs.deep_view(),
                data: data@,
            }),
    {
        let p = Self { sender_tag: Vec::new(), destination, surbs, data };
        assert(p.sender_tag@ =~= Seq::<u8>::empty());
        p
    }

    /// Serialize to bytes with strict format
    pub fn to_bytes(&self) -> (b: Vec<u8>)
        ensures
            b@ == forward_bytes(self@),
    {
        let mut bytes: Vec<u8> = Vec::new();
        bytes.push(PacketType::Forward.to_byte());
        push_field16(&mut bytes, self.sender_tag.as_slice());
        push_field16(&mut bytes, self.destination.as_str().as_bytes());
        push_be16(&mut bytes, self.surbs.len() as u16);
        push_surbs(&mut bytes, &self.surbs);
        push_bytes(&mut bytes, self.data.as_slice());
        assert(bytes@ =~= forward_bytes(self@));
        bytes
    }

    /// Parse from bytes with strict format validation
    pub fn from_bytes(bytes: &[u8]) -> (r: Result<Self, PayloadError>)
        ensures
            result_view(r) == spec_parse_forward(bytes@),
    {
        if bytes.len() == 0 {
            return Err(PayloadError::Empty);
        }
        check_type_byte(bytes, PacketType::Forward)?;
        let (sender_tag, offset) = take_field16(
            bytes,
            1,
            PayloadError::TooShortForSenderTagLength,
            PayloadError::TooShortForSenderTag,
        )?;
        let (dest_bytes, offset) = take_field16(
            bytes,
            offset,
            PayloadError::TooShortForDestinationLength,
            PayloadError::TooShortForDestination,
        )?;
        let destination = match string_from_utf8(dest_bytes) {
            Ok(s) => s,
            Err(_) => return Err(PayloadError::InvalidUtf8Destination),
        };
        if bytes.len() - offset < 2 {
            return Err(PayloadError::TooShortForSurbCount);
        }
        let surb_count = read_be16(bytes, offset);
        let (surbs, offset) = take_surbs(bytes, offset + 2, surb_count)?;
        let data = copy_range(bytes, offset, bytes.len());
        Ok(Self { sender_tag, destination, surbs, data })
    }
}

/// Reply packet payload format:
/// [1 byte: type=0x02][data]
#[derive(Debug, Clone)]
pub struct ReplyPayload {
    pub data: Vec<u8>,
}

pub struct ReplyPayloadView {
    pub data: Seq<u8>,
}

impl View for ReplyPayload {
    type V = ReplyPayloadView;

    open spec fn view(&self) -> ReplyPayloadView {
        ReplyPayloadView { data: self.data@ }
    }
}

/// The bytes of a reply payload.
pub open spec fn reply_bytes(p: ReplyPayloadView) -> Seq<u8> {
    seq![0x02u8] + p.data
}

/// What parsing `b` as a reply payload gives.
pub open spec fn spec_parse_reply(b: Seq<u8>) -> Result<ReplyPayloadView, PayloadError> {
    if b.len() == 0 {
        Err(PayloadError::Empty)
    } else {
        match type_byte_error(b[0], PacketType::Reply) {
            Some(e) => Err(e),
            None => Ok(ReplyPayloadView { data: b.subrange(1, b.len() as int) }),
        }
    }
}

impl ReplyPayload {
    /// Create a new reply payload
    pub fn new(data: Vec<u8>) -> (p: Self)
        ensures
            p@ == (ReplyPayloadView { data: data@ }),
    {
        Self { data }
    }

    /// Serialize to bytes with strict format
    pub fn to_bytes(&self) -> (b: Vec<u8>)
        ensures
            b@ == reply_bytes(self@),
    {
        let mut bytes: Vec<u8> = Vec::new();
        bytes.push(PacketType::Reply.to_byte());
        push_bytes(&mut bytes, self.data.as_slice());
        assert(bytes@ =~= reply_bytes(self@));
        bytes
    }

    /// Parse from bytes with strict format validation
    pub fn from_bytes(bytes: &[u8]) -> (r: Result<Self, PayloadError>)
        ensures
            result_view(r) == spec_parse_reply(bytes@),
    {
        if bytes.len() == 0 {
            return Err(PayloadError::Empty);
        }
        check_type_byte(bytes, PacketType::Reply)?;
        let data = copy_range(bytes, 1, bytes.len());
        Ok(Self { data })
    }
}

/// Ping packet payload format (health check):
/// [1 byte: type=0x03][1 byte: hop_index][2 bytes: surb_count][surb1_len: 2][surb1]...
#[derive(Debug, Clone)]
pub struct PingPayload {
    /// Current hop index (0 for first hop)
    pub hop_index: u8,
    /// SURBs for each hop to send ACK back
    pub surbs: Vec<Vec<u8>>,
}

pub struct PingPayloadView {
    pub hop_index: u8,
    pub surbs: Seq<Seq<u8>>,
}

impl View for PingPayload {
    type V = PingPayloadView;

    open spec fn view(&self) -> PingPayloadView {
        PingPayloadView { hop_index: self.hop_index, surbs: self.surbs.deep_view() }
    }
}

/// The bytes of a ping payload; the SURB count and lengths are written
/// modulo 2^16.
pub open spec fn ping_bytes(p: PingPayloadView) -> Seq<u8> {
    seq![0x03u8, p.hop_index] + be16(p.surbs.len() as u16) + surbs_bytes(p.surbs)
}

/// What parsing `b` as a ping payload gives; bytes after the last SURB are
/// ignored.
pub open spec fn spec_parse_ping(b: Seq<u8>) -> Result<PingPayloadView, PayloadError> {
    if b.len() == 0 {
        Err(PayloadError::Empty)
    } else {
        match type_byte_error(b[0], PacketType::Ping) {
            Some(e) => Err(e),
            None => if b.len() < 2 {
                Err(PayloadError::TooShortForHopIndex)
            } else if b.len() < 4 {
                Err(PayloadError::TooShortForSurbCount)
            } else {
                match spec_take_surbs(b, 4, be16_value(b[2], b[3]) as nat) {
                    Err(e) => Err(e),
                    Ok((surbs, _)) => Ok(PingPayloadView { hop_index: b[1], surbs }),
                }
            },
        }
    }
}

impl PingPayload {
    /// Create a new ping payload
    pub fn new(hop_index: u8, surbs: Vec<Vec<u8>>) -> (p: Self)
        ensures
            p@ == (PingPayloadView { hop_index, surbs: surbs.deep_view() }),
    {
        Self { hop_index, surbs }
    }

    /// Serialize to bytes with strict format
    pub fn to_bytes(&self) -> (b: Vec<u8>)
        ensures
            b@ == ping_bytes(self@),
    {
        let mut bytes: Vec<u8> = Vec::new();
        bytes.push(PacketType::Ping.to_byte());
        bytes.push(self.hop_index);
        push_be16(&mut bytes, self.surbs.len() as u16);
        push_surbs(&mut bytes, &self.surbs);
        assert(bytes@ =~= ping_bytes(self@));
        bytes
    }

    /// Parse from bytes with strict format validation
    pub fn from_bytes(bytes: &[u8]) -> (r: Result<Self, PayloadError>)
        ensures
            result_view(r) == spec_parse_ping(bytes@),
    {
        if bytes.len() == 0 {
            return Err(PayloadError::Empty);
        }
        check_type_byte(bytes, PacketType::Ping)?;
        if bytes.len() < 2 {
            return Err(PayloadError::TooShortForHopIndex);
        }
        let hop_index = bytes[1];
        if bytes.len() < 4 {
            return Err(PayloadError::TooShortForSurbCount);
        }
        let surb_count = read_be16(bytes, 2);
        let (surbs, _) = take_surbs(bytes, 4, surb_count)?;
        Ok(Self { hop_index, surbs })
    }
}

/// Ack packet payload format (health check response):
/// [1 byte: type=0x04][1 byte: hop_index][32 bytes: node_address][8 bytes: timestamp]
#[derive(Debug, Clone)]
pub struct AckPayload {
    /// Which hop this ACK is from
    pub hop_index: u8,
    /// Sphinx address of the responding node
    pub node_address: [u8; 32],
    /// Unix timestamp in milliseconds
    pub timestamp: u64,
}

pub struct AckPayloadView {
    pub hop_index: u8,
    pub node_address: Seq<u8>,
    pub timestamp: u64,
}

impl View for AckPayload {
    type V = AckPayloadView;

    open spec fn view(&self) -> AckPayloadView {
        AckPayloadView {
            hop_index: self.hop_index,
            node_address: self.node_address@,
            timestamp: self.timestamp,
        }
    }
}

/// The size of an ACK payload: type, hop index, address, timestamp.
pub open spec fn ack_len() -> int {
    42
}

/// The bytes of an ACK payload.
pub open spec fn ack_bytes(p: AckPayloadView) -> Seq<u8> {
    seq![0x04u8, p.hop_index] + p.node_address + be64(p.timestamp)
}

/// What parsing `b` as an ACK payload gives; bytes after the first 42 are
/// ignored.
pub open spec fn spec_parse_ack(b: Seq<u8>) -> Result<AckPayloadView, PayloadError> {
    if b.len() == 0 {
        Err(PayloadError::Empty)
    } else {
        match type_byte_error(b[0], PacketType::Ack) {
            Some(e) => Err(e),
            None => if b.len() < ack_len() {
                Err(PayloadError::AckTooShort(b.len() as usize))
            } else {
                Ok(
                    AckPayloadView {
                        hop_index: b[1],
                        node_address: b.subrange(2, 34),
                        timestamp: be64_value(b.subrange(34, 42)),
                    },
                )
            },
        }
    }
}

impl AckPayload {
    /// Create a new ACK payload
    pub fn new(hop_index: u8, node_address: [u8; 32], timestamp_millis: u64) -> (p: Self)
        ensures
            p@ == (AckPayloadView {
                hop_index,
                node_address: node_address@,
                timestamp: timestamp_millis,
            }),
    {
        Self { hop_index, node_address, timestamp: timestamp_millis }
    }

    /// Serialize to bytes with strict format
    pub fn to_bytes(&self) -> (b: Vec<u8>)
        ensures
            b@ == ack_bytes(self@),
    {
        let mut bytes: Vec<u8> = Vec::new();
        bytes.push(PacketType::Ack.to_byte());
        bytes.push(self.hop_index);
        push_bytes(&mut bytes, self.node_address.as_slice());
        let t = self.timestamp;
        bytes.push((t >> 56u64) as u8);
        bytes.push((t >> 48u64) as u8);
        bytes.push((t >> 40u64) as u8);
        bytes.push((t >> 32u64) as u8);
        bytes.push((t >> 24u64) as u8);
        bytes.push((t >> 16u64) as u8);
        bytes.push((t >> 8u64) as u8);
        bytes.push(t as u8);
        assert(bytes@ =~= ack_bytes(self@));
        bytes
    }

    /// Parse from bytes with strict format validation
    pub fn from_bytes(bytes: &[u8]) -> (r: Result<Self, PayloadError>)
        ensures
            result_view(r) == spec_parse_ack(bytes@),
    {
        if bytes.len() == 0 {
            return Err(PayloadError::Empty);
        }
        check_type_byte(bytes, PacketType::Ack)?;
        if bytes.len() < 42 {
            return Err(PayloadError::AckTooShort(bytes.len()));
        }
        let hop_index = bytes[1];
        let mut node_address = [0u8; 32];
        for i in 0..32
            invariant
                bytes@.len() >= 42,
                forall|j: int| 0 <= j < i ==> node_address@[j] == bytes@[2 + j],
        {
            node_address[i] = bytes[2 + i];
        }
        assert(node_address@ =~= bytes@.subrange(2, 34));
        let timestamp = (bytes[34] as u64) << 56u64 | (bytes[35] as u64) << 48u64 | (bytes[36] as u64)
            << 40u64 | (bytes[37] as u64) << 32u64 | (bytes[38] as u64) << 24u64 | (bytes[39] as u64)
            << 16u64 | (bytes[40] as u64) << 8u64 | (bytes[41] as u64);
        assert(timestamp == be64_value(bytes@.subrange(34, 42)));
        Ok(Self { hop_index, node_address, timestamp })
    }
}

} // verus!
