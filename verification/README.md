# mix_tunnel

Wire formats of a mixnet tunnel, verified with Verus.

- `src/payload_format.rs`: the typed payloads (forward, reply, ping, ACK):
  encoders and strict parsers, each specified by a spec function of the bytes.
- `src/payload_laws.rs`: parse/encode round trips and type separation.
- `src/ip_packet.rs`: IPv4/IPv6 header parsing, IPv4 address rewriting with
  header checksum recalculation.
- `src/ip_laws.rs`: the recalculated checksum verifies; a rewritten packet
  parses to the same information but for the new address.
- `src/wire.rs`, `src/error.rs`: big-endian fields and error types.
- `app/`: the TUN device and `std::net` adapters (not verified).
