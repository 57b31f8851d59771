//! Wire formats of a mixnet tunnel: the typed payloads carried between the
//! client and the exit node, and the IPv4/IPv6 header fields that the tunnel
//! reads and rewrites.

pub mod wire;
pub mod error;
pub mod payload_format;
pub mod payload_laws;
pub mod layout_laws;
pub mod ip_packet;
pub mod ip_laws;
pub mod header_laws;
