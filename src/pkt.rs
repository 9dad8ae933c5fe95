//! The packet dispatcher: one received frame in, at most one reply frame out.
//!
//! A frame in the buffer starts with the 4-byte packet-information preamble
//! of the virtual interface, then the Ethernet header, then its payload.

use vstd::prelude::*;
use crate::arp::{self, arp_reply_bytes, asks_for_local, TranslationTable};
use crate::checksum::{internet_checksum, lemma_checksum_verifies, lemma_fold_bound, word_sum, zero_word};
use crate::eth::{
    ether_type_of, local_mac, local_mac_bytes, mac_at, EtherType, EthernetFrameSlice, EthernetHeader,
};
use crate::icmp::{self, echo_reply_bytes};
use crate::ipv4::{
    calculate_checksum, ipv4_error, ipv4_header, proto_of, IPv4Packet, Ipv4PacketSlice, ProtoType,
};
use crate::tcp::{self, is_pure_syn, syn_ack_bytes, tcp_error};
use crate::wire::{be16, be32, lemma_be16_of_bytes, push_all, splice, u16_bytes, write_bytes, write_u16};

verus! {

/// Length of the virtual interface's packet-information preamble.
pub const PREAMBLE_LEN: usize = 4;

/// Offset of the Ethernet payload in a frame with its preamble.
pub const PAYLOAD_OFFSET: usize = 18;

/// The 18 bytes (preamble and Ethernet header) that start the frame
/// answering `h`. Flipped, the reply goes to `h`'s source from the local
/// MAC with the same ether-type; unflipped, `h`'s header is kept.
pub open spec fn eth_reply_bytes(h: Seq<u8>, flip: bool) -> Seq<u8> {
    seq![0u8, 0u8, 0u8, 0u8] + if flip {
        mac_at(h, 6) + local_mac_bytes() + h.subrange(12, 14)
    } else {
        h.subrange(0, 14)
    }
}

/// The IPv4 header `h` with its addresses swapped and a zero checksum.
pub open spec fn ip_reply_unsummed(h: Seq<u8>) -> Seq<u8> {
    h.subrange(0, 10) + seq![0u8, 0u8] + h.subrange(16, 20) + h.subrange(12, 16)
}

/// The 20-byte IPv4 header of the reply to `h`. Flipped, the addresses
/// are swapped and the checksum recomputed; unflipped, `h` is copied.
pub open spec fn ip_reply_bytes(h: Seq<u8>, flip: bool) -> Seq<u8> {
    if flip {
        let z = ip_reply_unsummed(h);
        splice(z, 10, u16_bytes(internet_checksum(z) as u16))
    } else {
        h.subrange(0, 20)
    }
}

/// Builds the preamble and Ethernet header of a reply to `eth_frame`.
pub fn build_eth(eth_frame: &EthernetFrameSlice, flip: bool) -> (r: [u8; 18])
    ensures
        r@ == eth_reply_bytes(eth_frame@, flip),
{
    let h = eth_frame.as_bytes();
    let mut ret_pkt = [0u8; 18];
    if flip {
        let new_dest_mac = eth_frame.source();
        let new_src_mac = local_mac();
        write_bytes(&mut ret_pkt, 4, &new_dest_mac);
        write_bytes(&mut ret_pkt, 10, &new_src_mac);
        write_u16(&mut ret_pkt, 16, eth_frame.ethertype());
        proof {
            crate::wire::lemma_bytes_of_be16(h@, 12);
        }
    } else {
        write_bytes(&mut ret_pkt, 4, &h[0..14]);
    }
    assert(ret_pkt@ =~= eth_reply_bytes(eth_frame@, flip));
    ret_pkt
}

/// Builds the 20-byte IPv4 header of a reply to `ip_frame`.
pub fn build_ip(ip_frame: &Ipv4PacketSlice, flip: bool) -> (r: [u8; 20])
    ensures
        r@ == ip_reply_bytes(ip_frame@, flip),
{
    let h = ip_frame.as_bytes();
    let mut ret_pkt = [0u8; 20];
    write_bytes(&mut ret_pkt, 0, &h[0..20]);
    if flip {
        let new_src_ip = ip_frame.destination_ip();
        let new_dest_ip = ip_frame.source_ip();
        write_u16(&mut ret_pkt, 10, 0);
        write_bytes(&mut ret_pkt, 12, &h[16..20]);
        write_bytes(&mut ret_pkt, 16, &h[12..16]);
        assert(ret_pkt@ =~= ip_reply_unsummed(h@));
        let csum = calculate_checksum(&ret_pkt);
        write_u16(&mut ret_pkt, 10, csum);
    }
    assert(ret_pkt@ =~= ip_reply_bytes(ip_frame@, flip));
    ret_pkt
}

/// Decoding the flipped Ethernet reply to a header gives back its
/// ether-type, with the request's source as destination and the local MAC
/// as source.
pub proof fn lemma_eth_reply_round_trip(h: Seq<u8>)
    requires
        h.len() >= 14,
    ensures
        eth_reply_bytes(h, true).len() == 18,
        mac_at(eth_reply_bytes(h, true).subrange(4, 18), 0) == mac_at(h, 6),
        mac_at(eth_reply_bytes(h, true).subrange(4, 18), 6) == local_mac_bytes(),
        be16(eth_reply_bytes(h, true).subrange(4, 18), 12) == be16(h, 12),
{
    let r = eth_reply_bytes(h, true).subrange(4, 18);
    assert(mac_at(r, 0) =~= mac_at(h, 6));
    assert(mac_at(r, 6) =~= local_mac_bytes());
}

/// Decoding the flipped IPv4 reply to a header without options gives back
/// every field but the two addresses, which are swapped, and the checksum,
/// which makes the reply sum to zero.
pub proof fn lemma_ip_reply_round_trip(h: Seq<u8>)
    requires
        ipv4_error(h) is None,
        h[0] % 16 <= 5,
    ensures
        ipv4_error(ip_reply_bytes(h, true)) is None,
        ipv4_header(ip_reply_bytes(h, true)) == (IPv4Packet {
            source_ip: ipv4_header(h).dest_ip,
            dest_ip: ipv4_header(h).source_ip,
            header_checksum: be16(ip_reply_bytes(h, true), 10) as u16,
            ..ipv4_header(h)
        }),
        internet_checksum(ip_reply_bytes(h, true)) == 0,
{
    let z = ip_reply_unsummed(h);
    let r = ip_reply_bytes(h, true);
    let c = internet_checksum(z);
    lemma_fold_bound(word_sum(z));
    lemma_be16_of_bytes(c as u16);
    assert(zero_word(r, 10) =~= z);
    assert(be16(r, 10) == be16(u16_bytes(c as u16), 0));
    lemma_checksum_verifies(r, 10);
}

/// The frame's Ethernet payload.
pub open spec fn payload_of(f: Seq<u8>) -> Seq<u8> {
    f.subrange(PAYLOAD_OFFSET as int, f.len() as int)
}

/// The sender binding that the frame `f` makes the cache merge, if any:
/// every ARP message of full length has one.
pub open spec fn arp_sender(f: Seq<u8>) -> Option<(u32, Seq<u8>)> {
    if f.len() >= PAYLOAD_OFFSET && ether_type_of(be16(f, 16) as u16) == Some(EtherType::Arp)
        && payload_of(f).len() >= arp::ARP_LEN {
        Some((be32(payload_of(f), 14) as u32, mac_at(payload_of(f), 8)))
    } else {
        None
    }
}

/// The reply frame to `f`, if it gets one: an ARP reply to a request for
/// the local address; for an IPv4 datagram with a 20-byte header that the
/// frame holds whole, an echo reply to an echo request or a SYN-ACK to a
/// SYN. The reply keeps the request's IPv4 header but for the addresses
/// and the checksum.
pub open spec fn reply_frame(f: Seq<u8>) -> Option<Seq<u8>> {
    if f.len() < PAYLOAD_OFFSET {
        None
    } else {
        let e = f.subrange(PREAMBLE_LEN as int, f.len() as int);
        let p = payload_of(f);
        match ether_type_of(be16(e, 12) as u16) {
            Some(EtherType::Arp) => {
                if p.len() >= arp::ARP_LEN && asks_for_local(p) {
                    Some(eth_reply_bytes(e, true) + arp_reply_bytes(p))
                } else {
                    None
                }
            },
            Some(EtherType::Ipv4) => {
                if ipv4_error(p) is None && p[0] % 16 == 5 && 20 <= be16(p, 2) && PAYLOAD_OFFSET
                    + be16(p, 2) <= f.len() {
                    let m = f.subrange(38, PAYLOAD_OFFSET + be16(p, 2));
                    let head = eth_reply_bytes(e, true) + ip_reply_bytes(p, true);
                    match proto_of(p[9]) {
                        Some(ProtoType::ICMP) => {
                            if m.len() >= icmp::ICMP_HEADER_LEN && m[0] == 8 {
                                Some(head + echo_reply_bytes(m))
                            } else {
                                None
                            }
                        },
                        Some(ProtoType::TCP) => {
                            if tcp_error(m) is None && is_pure_syn(m) {
                                Some(head + syn_ack_bytes(m, be32(p, 16) as u32, be32(p, 12) as u32))
                            } else {
                                None
                            }
                        },
                        _ => None,
                    }
                } else {
                    None
                }
            },
            None => None,
        }
    }
}

/// Whether `new` is `old` after the merge that the frame `f` asks for.
pub open spec fn table_after(f: Seq<u8>, old: Map<u32, [u8; 6]>, new: Map<u32, [u8; 6]>) -> bool {
    match arp_sender(f) {
        Some((ip, mac)) => new == old.insert(ip, new[ip]) && new[ip]@ == mac,
        None => new == old,
    }
}

/// The reply frame to `frame`, built from its layers.
fn reply_to(frame: &[u8], table: &mut TranslationTable) -> (r: Option<Vec<u8>>)
    ensures
        match r {
            Some(v) => reply_frame(frame@) == Some(v@),
            None => reply_frame(frame@) is None,
        },
        table_after(frame@, old(table)@, final(table)@),
{
    let n = frame.len();
    if n < PAYLOAD_OFFSET {
        return None;
    }
    let ghost f = frame@;
    let eth = match EthernetFrameSlice::read_from_slice(&frame[PREAMBLE_LEN..n]) {
        Ok(e) => e,
        Err(_) => return None,
    };
    let header = EthernetHeader::from_header_slice(&eth);
    let payload = &frame[PAYLOAD_OFFSET..n];
    assert(payload@ == payload_of(f));
    match EtherType::from_u16(header.ethertype) {
        Some(EtherType::Arp) => {
            match arp::read_packet(payload, table) {
                Ok(Some(pkt)) => {
                    let mut out: Vec<u8> = Vec::new();
                    push_all(&mut out, &build_eth(&eth, true));
                    push_all(&mut out, &pkt);
                    Some(out)
                },
                _ => None,
            }
        },
        Some(EtherType::Ipv4) => {
            let ip = match Ipv4PacketSlice::read_from_slice(payload) {
                Ok(s) => s,
                Err(_) => return None,
            };
            if ip.ihl() != 5 {
                return None;
            }
            let total = ip.total_len() as usize;
            if total < 20 || total > n - PAYLOAD_OFFSET {
                return None;
            }
            let upper = &frame[38..PAYLOAD_OFFSET + total];
            let mut out: Vec<u8> = Vec::new();
            push_all(&mut out, &build_eth(&eth, true));
            push_all(&mut out, &build_ip(&ip, true));
            match ip.protocol() {
                Some(ProtoType::ICMP) => {
                    match icmp::read_packet(upper) {
                        Ok(Some(msg)) => {
                            push_all(&mut out, &msg);
                            Some(out)
                        },
                        _ => None,
                    }
                },
                Some(ProtoType::TCP) => {
                    let ip_header = IPv4Packet::from_slice(ip);
                    match tcp::read_packet(upper, &ip_header) {
                        Ok(Some(seg)) => {
                            push_all(&mut out, &seg);
                            Some(out)
                        },
                        _ => None,
                    }
                },
                _ => None,
            }
        },
        None => None,
    }
}

/// Processes the frame in `buf[..buf_len]` and writes the reply, if any,
/// over the start of `buf`. Returns whether to send and how many bytes.
/// A frame that gets no reply, or whose reply would not fit in `buf`,
/// yields `(false, 0)`.
pub fn read_and_reply(buf: &mut [u8], buf_len: usize, table: &mut TranslationTable) -> (r: (bool, usize))
    requires
        buf_len <= old(buf)@.len(),
    ensures
        final(buf)@.len() == old(buf)@.len(),
        match reply_frame(old(buf)@.subrange(0, buf_len as int)) {
            Some(out) => if out.len() <= old(buf)@.len() {
                r == (true, out.len() as usize) && final(buf)@.subrange(0, out.len() as int) == out
            } else {
                r == (false, 0usize)
            },
            None => r == (false, 0usize),
        },
        table_after(old(buf)@.subrange(0, buf_len as int), old(table)@, final(table)@),
        buf_len >= PAYLOAD_OFFSET && ether_type_of(be16(old(buf)@, 16) as u16) is None ==> r == (
            false,
            0usize,
        ) && final(table)@ == old(table)@,
{
    let ghost f = buf@.subrange(0, buf_len as int);
    let reply = reply_to(&buf[0..buf_len], table);
    match reply {
        Some(out) => {
            let n = out.len();
            if n > buf.len() {
                return (false, 0);
            }
            let mut i: usize = 0;
            while i < n
                invariant
                    n == out@.len(),
                    n <= buf@.len(),
                    buf@.len() == old(buf)@.len(),
                    i <= n,
                    buf@.subrange(0, i as int) == out@.subrange(0, i as int),
                decreases n - i,
            {
                buf[i] = out[i];
                i = i + 1;
                assert(buf@.subrange(0, i as int) =~= out@.subrange(0, i as int));
            }
            assert(out@.subrange(0, n as int) =~= out@);
            (true, n)
        },
        None => {
            proof {
                if buf_len >= PAYLOAD_OFFSET {
                    assert(be16(f, 16) == be16(old(buf)@, 16));
                }
            }
            (false, 0)
        },
    }
}

} // verus!
