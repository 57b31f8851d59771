//! Errors of the payload and packet parsers.
use vstd::prelude::*;
use crate::payload_format::PacketType;

verus! {

/// Why a payload was refused.
#[derive(Debug, Clone, Copy, PartialEq, Eq, Structural)]
pub enum PayloadError {
    /// The payload holds no byte at all.
    Empty,
    /// The first byte names no packet type.
    InvalidPacketType(u8),
    /// The first byte names another packet type than the one asked for.
    UnexpectedPacketType { expected: PacketType, found: PacketType },
    TooShortForSenderTagLength,
    TooShortForSenderTag,
    TooShortForDestinationLength,
    TooShortForDestination,
    /// The destination bytes are not UTF-8.
    InvalidUtf8Destination,
    TooShortForSurbCount,
    TooShortForSurbLength,
    TooShortForSurb,
    TooShortForHopIndex,
    /// An ACK payload shorter than its fixed size; carries the length found.
    AckTooShort(usize),
}

/// Why an IP packet was refused.
#[derive(Debug, Clone, Copy, PartialEq, Eq, Structural)]
pub enum PacketError {
    /// The packet holds no byte at all.
    Empty,
    /// The version nibble is neither 4 nor 6; carries the version found.
    UnknownIpVersion(u8),
    TooShortForIpv4Header,
    /// Carries the version found.
    NotIpv4(u8),
    /// The packet is shorter than the header length that it declares
    /// (carried, in bytes).
    TooShortForIhl(usize),
    TooShortForIpv6Header,
    /// Carries the version found.
    NotIpv6(u8),
}

} // verus!
