//! A small user-space network stack: Ethernet framing, address resolution,
//! IPv4 header handling, ICMP echo and the first step of a TCP handshake,
//! all decoded from and encoded into raw byte buffers.

pub mod arp;
pub mod checksum;
pub mod eth;
pub mod icmp;
pub mod ipv4;
pub mod pkt;
pub mod tcp;
pub mod wire;
