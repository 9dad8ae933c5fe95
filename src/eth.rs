//! Ethernet II: the 14-byte link-layer header and the local interface's
//! fixed identity.

use vstd::prelude::*;
use crate::arp::TranslationTable;
use crate::wire::{be16, read_mac, read_u16, DecodeError};

verus! {

/// The local interface's IPv4 address, 10.0.0.2.
pub const IP: u32 = 0x0a00_0002;

/// The loopback address, 127.0.0.1.
pub const LOOPBACK: u32 = 0x7f00_0001;

/// The bytes of the local interface's MAC address, be:e9:7d:63:31:bc.
pub open spec fn local_mac_bytes() -> Seq<u8> {
    seq![0xbeu8, 0xe9u8, 0x7du8, 0x63u8, 0x31u8, 0xbcu8]
}

/// The local interface's MAC address.
pub fn local_mac() -> (r: [u8; 6])
    ensures
        r@ == local_mac_bytes(),
{
    let r: [u8; 6] = [0xbe, 0xe9, 0x7d, 0x63, 0x31, 0xbc];
    assert(r@ =~= local_mac_bytes());
    r
}

/// The six-byte MAC address at `i`.
pub open spec fn mac_at(h: Seq<u8>, i: int) -> Seq<u8> {
    h.subrange(i, i + 6)
}

/// The payload protocols that an Ethernet frame can carry here.
#[derive(Clone, Copy, Debug, PartialEq, Eq, Structural)]
pub enum EtherType {
    Ipv4,
    Arp,
}

/// The payload protocol that an ether-type names, if it is one of ours.
pub open spec fn ether_type_of(value: u16) -> Option<EtherType> {
    if value == 0x0800 {
        Some(EtherType::Ipv4)
    } else if value == 0x0806 {
        Some(EtherType::Arp)
    } else {
        None
    }
}

impl EtherType {
    /// Maps an ether-type to the protocol, `None` when unknown.
    pub fn from_u16(value: u16) -> (r: Option<EtherType>)
        ensures
            r == ether_type_of(value),
    {
        if value == 0x0800 {
            Some(EtherType::Ipv4)
        } else if value == 0x0806 {
            Some(EtherType::Arp)
        } else {
            None
        }
    }
}

/// A decoded Ethernet header.
#[derive(Clone, Copy, Debug, PartialEq, Eq)]
pub struct EthernetHeader {
    pub destination: [u8; 6],
    pub source: [u8; 6],
    pub ethertype: u16,
}

/// Whether `e` holds the fields of the Ethernet header at the start of `h`.
pub open spec fn is_eth_header(e: EthernetHeader, h: Seq<u8>) -> bool {
    &&& e.destination@ == mac_at(h, 0)
    &&& e.source@ == mac_at(h, 6)
    &&& e.ethertype == be16(h, 12)
}

impl EthernetHeader {
    /// Decodes the header that `slice` views.
    pub fn from_header_slice(slice: &EthernetFrameSlice) -> (r: Self)
        ensures
            is_eth_header(r, slice@),
    {
        EthernetHeader {
            destination: slice.destination(),
            source: slice.source(),
            ethertype: slice.ethertype(),
        }
    }
}

/// A checked view of a frame that starts with an Ethernet header.
#[derive(Debug, PartialEq, Eq)]
pub struct EthernetFrameSlice<'a> {
    slice: &'a [u8],
}

impl<'a> View for EthernetFrameSlice<'a> {
    type V = Seq<u8>;

    closed spec fn view(&self) -> Seq<u8> {
        self.slice@
    }
}

impl<'a> EthernetFrameSlice<'a> {
    #[verifier::type_invariant]
    closed spec fn inv(&self) -> bool {
        self.slice@.len() >= 14
    }

    /// Views `data` as a frame; it must hold at least the 14-byte header.
    pub fn read_from_slice(data: &'a [u8]) -> (r: Result<Self, DecodeError>)
        ensures
            match r {
                Ok(f) => data@.len() >= 14 && f@ == data@,
                Err(e) => data@.len() < 14 && e == DecodeError::Truncated,
            },
    {
        if data.len() < 14 {
            Err(DecodeError::Truncated)
        } else {
            Ok(EthernetFrameSlice { slice: data })
        }
    }

    /// The frame's bytes, at least the 14 of the header.
    pub fn as_bytes(&self) -> (r: &'a [u8])
        ensures
            r@ == self@,
            r@.len() >= 14,
    {
        proof {
            use_type_invariant(self);
        }
        self.slice
    }

    /// Destination MAC, bytes 0 to 5.
    pub fn destination(&self) -> (r: [u8; 6])
        ensures
            r@ == mac_at(self@, 0),
    {
        proof {
            use_type_invariant(self);
        }
        read_mac(self.slice, 0)
    }

    /// Source MAC, bytes 6 to 11.
    pub fn source(&self) -> (r: [u8; 6])
        ensures
            r@ == mac_at(self@, 6),
    {
        proof {
            use_type_invariant(self);
        }
        read_mac(self.slice, 6)
    }

    /// Ether-type, bytes 12 and 13.
    pub fn ethertype(&self) -> (r: u16)
        ensures
            r == be16(self@, 12),
    {
        proof {
            use_type_invariant(self);
        }
        read_u16(self.slice, 12)
    }
}

/// Seeds the cache with the local interface's own binding and with the
/// loopback address.
pub fn nic_init(table: &mut TranslationTable)
    ensures
        final(table)@ == old(table)@.insert(IP, final(table)@[IP]).insert(
            LOOPBACK,
            final(table)@[LOOPBACK],
        ),
        final(table)@[IP]@ == local_mac_bytes(),
        final(table)@[LOOPBACK]@ == seq![0u8, 0u8, 0u8, 0u8, 0u8, 0u8],
{
    let mac = local_mac();
    table.insert(IP, mac);
    let zero: [u8; 6] = [0u8; 6];
    table.insert(LOOPBACK, zero);
    assert(zero@ =~= seq![0u8, 0u8, 0u8, 0u8, 0u8, 0u8]);
}

} // verus!
