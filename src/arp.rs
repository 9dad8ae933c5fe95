//! Address resolution: ARP messages for IPv4 over Ethernet and the cache
//! of IPv4-to-MAC bindings that they feed.

use vstd::prelude::*;
use std::collections::HashMap;
use crate::eth::{local_mac, local_mac_bytes, mac_at, IP};
use crate::wire::{
    be16, be32, bytes_equal, read_mac, read_u16, read_u32, u32_bytes, write_bytes, write_u32, DecodeError,
};

verus! {

/// The address resolution cache: at most one MAC per IPv4 address.
pub type TranslationTable = HashMap<u32, [u8; 6]>;

/// The cache after the binding `ip -> mac` was merged in.
pub open spec fn merge(table: Map<u32, [u8; 6]>, ip: u32, mac: [u8; 6]) -> Map<u32, [u8; 6]> {
    table.insert(ip, mac)
}

/// What a lookup of `ip` in `table` finds.
pub open spec fn lookup_of(table: Map<u32, [u8; 6]>, ip: u32) -> Option<[u8; 6]> {
    if table.contains_key(ip) {
        Some(table[ip])
    } else {
        None
    }
}

/// What merging one binding did to the cache.
#[derive(Clone, Copy, Debug, PartialEq, Eq, Structural)]
pub enum CacheUpdate {
    /// The address had no binding; one was added.
    Added,
    /// The address was bound to another MAC, which the new one superseded.
    Changed,
    /// The address was already bound to this MAC.
    Unchanged,
}

/// Merging the same binding twice leaves the cache as merging it once.
pub proof fn lemma_merge_idempotent(table: Map<u32, [u8; 6]>, ip: u32, mac: [u8; 6])
    ensures
        merge(merge(table, ip, mac), ip, mac) == merge(table, ip, mac),
{
    assert(merge(merge(table, ip, mac), ip, mac) =~= merge(table, ip, mac));
}

/// A new MAC for a bound address supersedes the old one: a lookup finds the
/// new MAC, never the old.
pub proof fn lemma_merge_supersedes(
    table: Map<u32, [u8; 6]>,
    ip: u32,
    old_mac: [u8; 6],
    new_mac: [u8; 6],
)
    requires
        lookup_of(table, ip) == Some(old_mac),
        old_mac != new_mac,
    ensures
        lookup_of(merge(table, ip, new_mac), ip) == Some(new_mac),
        lookup_of(merge(table, ip, new_mac), ip) != Some(old_mac),
{
}

/// Merges the binding `ip -> found_mac` into the cache: added when the
/// address is new, overwritten when it was bound to another MAC.
pub fn update_table(map: &mut TranslationTable, found_mac: [u8; 6], ip: u32) -> (r: CacheUpdate)
    ensures
        final(map)@ == merge(old(map)@, ip, found_mac),
        r == (if !old(map)@.contains_key(ip) {
            CacheUpdate::Added
        } else if old(map)@[ip] == found_mac {
            CacheUpdate::Unchanged
        } else {
            CacheUpdate::Changed
        }),
{
    let same = match map.get(&ip) {
        Some(x) => {
            let eq = bytes_equal(x, &found_mac);
            assert(eq == (*x == found_mac)) by {
                if eq {
                    assert(*x =~= found_mac);
                }
            }
            Some(eq)
        },
        None => None,
    };
    match same {
        Some(true) => {
            assert(old(map)@.insert(ip, found_mac) =~= old(map)@);
            CacheUpdate::Unchanged
        },
        Some(false) => {
            map.insert(ip, found_mac);
            CacheUpdate::Changed
        },
        None => {
            map.insert(ip, found_mac);
            CacheUpdate::Added
        },
    }
}

/// The MAC bound to `ip`, if any.
pub fn lookup(table: &TranslationTable, ip: u32) -> (r: Option<[u8; 6]>)
    ensures
        r == lookup_of(table@, ip),
{
    match table.get(&ip) {
        Some(x) => Some(*x),
        None => None,
    }
}

/// An ARP message for IPv4 over Ethernet.
#[derive(Clone, Copy, Debug, PartialEq, Eq)]
pub struct ArpPacket {
    /// Link-layer type; 1 for Ethernet.
    pub hardware_type: u16,
    /// Protocol type; 0x0800 for IPv4.
    pub proto_type: u16,
    /// Length of a hardware address in bytes.
    pub hardware_size: u8,
    /// Length of a protocol address in bytes.
    pub proto_size: u8,
    /// 1 request, 2 reply, 3 RARP request, 4 RARP reply.
    pub opcode: u16,
    /// Sender and target addresses.
    pub ipv4_data: ArpIpv4,
}

/// The address part of an ARP message for IPv4 over Ethernet.
#[derive(Clone, Copy, Debug, PartialEq, Eq)]
pub struct ArpIpv4 {
    /// Sender's MAC address.
    pub source_mac: [u8; 6],
    /// Sender's IPv4 address.
    pub source_ip: u32,
    /// Target's MAC address.
    pub destination_mac: [u8; 6],
    /// Target's IPv4 address.
    pub destination_ip: u32,
}

/// Length of an ARP message for IPv4 over Ethernet.
pub const ARP_LEN: usize = 28;

/// Opcode of an ARP request.
pub const OP_REQUEST: u16 = 1;

/// Opcode of an ARP reply.
pub const OP_REPLY: u16 = 2;

/// Whether `p` holds the fields of the ARP message at the start of `h`.
pub open spec fn is_arp_packet(p: ArpPacket, h: Seq<u8>) -> bool {
    &&& p.hardware_type == be16(h, 0)
    &&& p.proto_type == be16(h, 2)
    &&& p.hardware_size == h[4]
    &&& p.proto_size == h[5]
    &&& p.opcode == be16(h, 6)
    &&& p.ipv4_data.source_mac@ == mac_at(h, 8)
    &&& p.ipv4_data.source_ip == be32(h, 14)
    &&& p.ipv4_data.destination_mac@ == mac_at(h, 18)
    &&& p.ipv4_data.destination_ip == be32(h, 24)
}

/// The reply to the request `h`: metadata copied, opcode 2, the local
/// interface as sender and the requester as target.
pub open spec fn arp_reply_bytes(h: Seq<u8>) -> Seq<u8> {
    h.subrange(0, 6) + seq![0u8, 2u8] + local_mac_bytes() + u32_bytes(IP) + h.subrange(8, 18)
}

/// Whether the message `h` is a request for the local interface's address.
pub open spec fn asks_for_local(h: Seq<u8>) -> bool {
    be16(h, 6) == OP_REQUEST && be32(h, 24) == IP
}

/// A checked view of an ARP message inside a received buffer.
#[derive(Debug, PartialEq, Eq)]
pub struct ArpPacketSlice<'a> {
    slice: &'a [u8],
}

impl<'a> View for ArpPacketSlice<'a> {
    type V = Seq<u8>;

    closed spec fn view(&self) -> Seq<u8> {
        self.slice@
    }
}

impl<'a> ArpPacketSlice<'a> {
    #[verifier::type_invariant]
    closed spec fn inv(&self) -> bool {
        self.slice@.len() >= ARP_LEN
    }

    pub fn hardware_type(&self) -> (r: u16)
        ensures
            r == be16(self@, 0),
    {
        proof {
            use_type_invariant(self);
        }
        read_u16(self.slice, 0)
    }

    pub fn proto_type(&self) -> (r: u16)
        ensures
            r == be16(self@, 2),
    {
        proof {
            use_type_invariant(self);
        }
        read_u16(self.slice, 2)
    }

    pub fn hardware_size(&self) -> (r: u8)
        ensures
            r == self@[4],
    {
        proof {
            use_type_invariant(self);
        }
        self.slice[4]
    }

    pub fn proto_size(&self) -> (r: u8)
        ensures
            r == self@[5],
    {
        proof {
            use_type_invariant(self);
        }
        self.slice[5]
    }

    pub fn opcode(&self) -> (r: u16)
        ensures
            r == be16(self@, 6),
    {
        proof {
            use_type_invariant(self);
        }
        read_u16(self.slice, 6)
    }

    /// Sender's MAC address.
    pub fn source_mac(&self) -> (r: [u8; 6])
        ensures
            r@ == mac_at(self@, 8),
    {
        proof {
            use_type_invariant(self);
        }
        read_mac(self.slice, 8)
    }

    /// Sender's IPv4 address.
    pub fn source_ip(&self) -> (r: u32)
        ensures
            r == be32(self@, 14),
    {
        proof {
            use_type_invariant(self);
        }
        read_u32(self.slice, 14)
    }

    /// Target's MAC address.
    pub fn destination_mac(&self) -> (r: [u8; 6])
        ensures
            r@ == mac_at(self@, 18),
    {
        proof {
            use_type_invariant(self);
        }
        read_mac(self.slice, 18)
    }

    /// Target's IPv4 address.
    pub fn destination_ip(&self) -> (r: u32)
        ensures
            r == be32(self@, 24),
    {
        proof {
            use_type_invariant(self);
        }
        read_u32(self.slice, 24)
    }

    /// Views `data` as an ARP message; it must hold all 28 bytes.
    pub fn read_from_slice(data: &'a [u8]) -> (r: Result<Self, DecodeError>)
        ensures
            match r {
                Ok(p) => data@.len() >= ARP_LEN && p@ == data@,
                Err(e) => data@.len() < ARP_LEN && e == DecodeError::Truncated,
            },
    {
        if data.len() < ARP_LEN {
            Err(DecodeError::Truncated)
        } else {
            Ok(ArpPacketSlice { slice: data })
        }
    }
}

impl ArpPacket {
    /// Decodes every field of the message that `slice` views.
    pub fn from_slice(slice: &ArpPacketSlice) -> (r: Self)
        ensures
            is_arp_packet(r, slice@),
    {
        ArpPacket {
            hardware_type: slice.hardware_type(),
            proto_type: slice.proto_type(),
            hardware_size: slice.hardware_size(),
            proto_size: slice.proto_size(),
            opcode: slice.opcode(),
            ipv4_data: ArpIpv4 {
                source_mac: slice.source_mac(),
                source_ip: slice.source_ip(),
                destination_mac: slice.destination_mac(),
                destination_ip: slice.destination_ip(),
            },
        }
    }
}

/// Builds the reply to the request that `packet_buf` views.
pub fn reply(packet_buf: &ArpPacketSlice) -> (r: [u8; 28])
    ensures
        r@ == arp_reply_bytes(packet_buf@),
{
    proof {
        use_type_invariant(packet_buf);
    }
    let data = packet_buf.slice;
    let mut new_packet = [0u8; 28];
    // hardware and protocol type and sizes, copied
    write_bytes(&mut new_packet, 0, &data[0..6]);
    new_packet[7] = 0x02;
    // the local interface as sender
    let mac = local_mac();
    write_bytes(&mut new_packet, 8, &mac);
    write_u32(&mut new_packet, 14, IP);
    // the requester as target
    write_bytes(&mut new_packet, 18, &data[8..18]);
    assert(new_packet@ =~= arp_reply_bytes(data@));
    new_packet
}

/// Handles one received ARP message. The sender's binding is merged into
/// the cache whatever the opcode; a request for the local address gets the
/// 28-byte reply, anything else none. Fewer than 28 bytes fail to decode
/// and leave the cache alone.
pub fn read_packet(data: &[u8], table: &mut TranslationTable) -> (r: Result<
    Option<[u8; 28]>,
    DecodeError,
>)
    ensures
        data@.len() < ARP_LEN ==> r == Err::<Option<[u8; 28]>, DecodeError>(DecodeError::Truncated)
            && final(table)@ == old(table)@,
        data@.len() >= ARP_LEN ==> {
            &&& final(table)@ == old(table)@.insert(be32(data@, 14) as u32, final(table)@[be32(data@, 14) as u32])
            &&& final(table)@[be32(data@, 14) as u32]@ == mac_at(data@, 8)
            &&& match r {
                Ok(Some(b)) => asks_for_local(data@) && b@ == arp_reply_bytes(data@),
                Ok(None) => !asks_for_local(data@),
                Err(_) => false,
            }
        },
{
    let packet_slice = ArpPacketSlice::read_from_slice(data)?;
    let packet = ArpPacket::from_slice(&packet_slice);
    update_table(table, packet.ipv4_data.source_mac, packet.ipv4_data.source_ip);
    if packet.opcode == OP_REQUEST && packet.ipv4_data.destination_ip == IP {
        Ok(Some(reply(&packet_slice)))
    } else {
        Ok(None)
    }
}

} // verus!
