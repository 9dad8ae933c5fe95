//! IPv4: the 20-byte fixed header, its protocol numbers and its checksum.

use vstd::prelude::*;
use crate::checksum::{fold_carries, internet_checksum, lemma_fold_bound, lemma_fold_step, word_sum};
use crate::wire::{be16, be32, read_u16, read_u32, DecodeError};

verus! {

/// The upper-layer protocols this stack recognises.
#[derive(Clone, Copy, Debug, PartialEq, Eq, Structural)]
pub enum ProtoType {
    ICMP,
    IGMP,
    TCP,
    UDP,
}

/// The protocol that an IPv4 protocol number names, if it is one of ours.
pub open spec fn proto_of(value: u8) -> Option<ProtoType> {
    if value == 1 {
        Some(ProtoType::ICMP)
    } else if value == 2 {
        Some(ProtoType::IGMP)
    } else if value == 6 {
        Some(ProtoType::TCP)
    } else if value == 17 {
        Some(ProtoType::UDP)
    } else {
        None
    }
}

/// The IPv4 protocol number of a protocol; zero when there is none.
pub open spec fn proto_number(p: Option<ProtoType>) -> u8 {
    match p {
        Some(ProtoType::ICMP) => 1,
        Some(ProtoType::IGMP) => 2,
        Some(ProtoType::TCP) => 6,
        Some(ProtoType::UDP) => 17,
        None => 0,
    }
}

impl ProtoType {
    /// Maps an IPv4 protocol number to the protocol, `None` when unknown.
    pub fn from_u8(value: u8) -> (r: Option<ProtoType>)
        ensures
            r == proto_of(value),
    {
        match value {
            0x01 => Some(ProtoType::ICMP),
            0x02 => Some(ProtoType::IGMP),
            0x06 => Some(ProtoType::TCP),
            0x11 => Some(ProtoType::UDP),
            _ => None,
        }
    }

    /// The protocol number of `value`, zero for `None`.
    pub fn to_u8(value: &Option<ProtoType>) -> (r: u8)
        ensures
            r == proto_number(*value),
    {
        match value {
            Some(ProtoType::ICMP) => 0x01,
            Some(ProtoType::IGMP) => 0x02,
            Some(ProtoType::TCP) => 0x06,
            Some(ProtoType::UDP) => 0x11,
            None => 0,
        }
    }
}

/// A decoded IPv4 header.
#[derive(Clone, Copy, Debug, PartialEq, Eq)]
pub struct IPv4Packet {
    /// Always 4 for a header that decoded.
    pub version: u8,
    /// Header length in 32-bit words.
    pub ihl: u8,
    /// Differentiated services code point (6 bits).
    pub dscp: u8,
    /// Explicit congestion notification (2 bits).
    pub ecn: u8,
    /// Length of the whole datagram in bytes.
    pub total_len: u16,
    pub identification: u16,
    /// Reserved, don't-fragment and more-fragments bits (3 bits).
    pub flags: u8,
    /// Fragment offset in 8-byte blocks (13 bits).
    pub fragment_offset: u16,
    pub ttl: u8,
    /// The upper protocol, `None` when the number is not one of ours.
    pub protocol: Option<ProtoType>,
    pub header_checksum: u16,
    pub source_ip: u32,
    pub dest_ip: u32,
}

/// The fields of the IPv4 header at the start of `h`.
pub open spec fn ipv4_header(h: Seq<u8>) -> IPv4Packet {
    IPv4Packet {
        version: (h[0] / 16) as u8,
        ihl: (h[0] % 16) as u8,
        dscp: (h[1] / 4) as u8,
        ecn: (h[1] % 4) as u8,
        total_len: be16(h, 2) as u16,
        identification: be16(h, 4) as u16,
        flags: (h[6] / 32) as u8,
        fragment_offset: ((h[6] % 32) * 256 + h[7]) as u16,
        ttl: h[8],
        protocol: proto_of(h[9]),
        header_checksum: be16(h, 10) as u16,
        source_ip: be32(h, 12) as u32,
        dest_ip: be32(h, 16) as u32,
    }
}

/// Why `h` is not an IPv4 header, or `None` when it is one: at least
/// 20 bytes, version 4, and long enough for its own header length.
pub open spec fn ipv4_error(h: Seq<u8>) -> Option<DecodeError> {
    if h.len() < 20 {
        Some(DecodeError::Truncated)
    } else if h[0] / 16 != 4 {
        Some(DecodeError::BadVersion)
    } else if (h[0] % 16) * 4 > h.len() {
        Some(DecodeError::Truncated)
    } else {
        None
    }
}

impl IPv4Packet {
    /// Decodes every field of the header that `slice` views.
    pub fn from_slice(slice: Ipv4PacketSlice) -> (r: Self)
        ensures
            r == ipv4_header(slice@),
    {
        IPv4Packet {
            version: slice.version(),
            ihl: slice.ihl(),
            dscp: slice.dscp(),
            ecn: slice.ecn(),
            total_len: slice.total_len(),
            identification: slice.identification(),
            flags: slice.flags(),
            fragment_offset: slice.fragment_offset(),
            ttl: slice.ttl(),
            protocol: slice.protocol(),
            header_checksum: slice.header_checksum(),
            source_ip: slice.source_ip(),
            dest_ip: slice.destination_ip(),
        }
    }
}

/// A checked view of an IPv4 header inside a received buffer.
#[derive(Debug, PartialEq, Eq)]
pub struct Ipv4PacketSlice<'a> {
    slice: &'a [u8],
}

impl<'a> View for Ipv4PacketSlice<'a> {
    type V = Seq<u8>;

    closed spec fn view(&self) -> Seq<u8> {
        self.slice@
    }
}

impl<'a> Ipv4PacketSlice<'a> {
    #[verifier::type_invariant]
    closed spec fn inv(&self) -> bool {
        ipv4_error(self.slice@) is None
    }

    /// The bytes the view covers, which hold a well-formed header.
    pub fn as_bytes(&self) -> (r: &'a [u8])
        ensures
            r@ == self@,
            ipv4_error(r@) is None,
    {
        proof {
            use_type_invariant(self);
        }
        self.slice
    }

    /// The version nibble (high half of byte 0).
    pub fn version(&self) -> (r: u8)
        ensures
            r == self@[0] / 16,
    {
        proof {
            use_type_invariant(self);
        }
        self.slice[0] / 16
    }

    /// The header length in words (low half of byte 0).
    pub fn ihl(&self) -> (r: u8)
        ensures
            r == self@[0] % 16,
    {
        proof {
            use_type_invariant(self);
        }
        self.slice[0] % 16
    }

    /// The top six bits of byte 1.
    pub fn dscp(&self) -> (r: u8)
        ensures
            r == self@[1] / 4,
    {
        proof {
            use_type_invariant(self);
        }
        self.slice[1] / 4
    }

    /// The low two bits of byte 1.
    pub fn ecn(&self) -> (r: u8)
        ensures
            r == self@[1] % 4,
    {
        proof {
            use_type_invariant(self);
        }
        self.slice[1] % 4
    }

    pub fn total_len(&self) -> (r: u16)
        ensures
            r == be16(self@, 2),
    {
        proof {
            use_type_invariant(self);
        }
        read_u16(self.slice, 2)
    }

    pub fn identification(&self) -> (r: u16)
        ensures
            r == be16(self@, 4),
    {
        proof {
            use_type_invariant(self);
        }
        read_u16(self.slice, 4)
    }

    /// The top three bits of byte 6.
    pub fn flags(&self) -> (r: u8)
        ensures
            r == self@[6] / 32,
    {
        proof {
            use_type_invariant(self);
        }
        self.slice[6] / 32
    }

    /// The low five bits of byte 6 followed by byte 7.
    pub fn fragment_offset(&self) -> (r: u16)
        ensures
            r == (self@[6] % 32) * 256 + self@[7],
    {
        proof {
            use_type_invariant(self);
        }
        ((self.slice[6] % 32) as u16) * 256 + self.slice[7] as u16
    }

    pub fn ttl(&self) -> (r: u8)
        ensures
            r == self@[8],
    {
        proof {
            use_type_invariant(self);
        }
        self.slice[8]
    }

    pub fn protocol(&self) -> (r: Option<ProtoType>)
        ensures
            r == proto_of(self@[9]),
    {
        proof {
            use_type_invariant(self);
        }
        ProtoType::from_u8(self.slice[9])
    }

    pub fn header_checksum(&self) -> (r: u16)
        ensures
            r == be16(self@, 10),
    {
        proof {
            use_type_invariant(self);
        }
        read_u16(self.slice, 10)
    }

    pub fn source_ip(&self) -> (r: u32)
        ensures
            r == be32(self@, 12),
    {
        proof {
            use_type_invariant(self);
        }
        read_u32(self.slice, 12)
    }

    pub fn destination_ip(&self) -> (r: u32)
        ensures
            r == be32(self@, 16),
    {
        proof {
            use_type_invariant(self);
        }
        read_u32(self.slice, 16)
    }

    /// Views `data` as an IPv4 header, checking its length, its version and
    /// that it covers its own header length.
    pub fn read_from_slice(data: &'a [u8]) -> (r: Result<Self, DecodeError>)
        ensures
            match r {
                Ok(p) => ipv4_error(data@) is None && p@ == data@,
                Err(e) => ipv4_error(data@) == Some(e),
            },
    {
        if data.len() < 20 {
            Err(DecodeError::Truncated)
        } else if data[0] / 16 != 4 {
            Err(DecodeError::BadVersion)
        } else if ((data[0] % 16) as usize) * 4 > data.len() {
            Err(DecodeError::Truncated)
        } else {
            Ok(Ipv4PacketSlice { slice: data })
        }
    }
}

/// The Internet checksum of any byte range; an odd trailing byte is padded
/// with a zero byte into a last word.
pub fn calculate_checksum(header: &[u8]) -> (r: u16)
    ensures
        r == internet_checksum(header@),
{
    let n = header.len();
    let mut sum: u32 = 0;
    let mut i: usize = 0;
    assert(header@.subrange(0, n as int) =~= header@);
    while n - i >= 2
        invariant
            n == header@.len(),
            i <= n,
            sum < 0x10000,
            fold_carries((sum + word_sum(header@.subrange(i as int, n as int))) as nat)
                == fold_carries(word_sum(header@)),
        decreases n - i,
    {
        let t: u32 = sum + read_u16(header, i) as u32;
        proof {
            let rest = header@.subrange(i as int, n as int);
            let tail = header@.subrange(i + 2, n as int);
            assert(rest.subrange(2, rest.len() as int) =~= tail);
            assert(word_sum(rest) == be16(header@, i as int) + word_sum(tail));
            lemma_fold_step(t as nat, word_sum(tail));
        }
        sum = t % 0x10000 + t / 0x10000;
        i = i + 2;
    }
    if i < n {
        let t: u32 = sum + (header[i] as u32) * 256;
        proof {
            let rest = header@.subrange(i as int, n as int);
            assert(rest.len() == 1);
            assert(word_sum(rest) == header@[i as int] * 256);
            lemma_fold_step(t as nat, 0);
        }
        sum = t % 0x10000 + t / 0x10000;
    } else {
        assert(header@.subrange(i as int, n as int).len() == 0);
    }
    proof {
        lemma_fold_bound(sum as nat);
    }
    (0xffff - sum) as u16
}

/// The Internet checksum over a range of whole 16-bit words.
pub fn checksum(slice: &[u8]) -> (r: u16)
    requires
        slice@.len() % 2 == 0,
    ensures
        r == internet_checksum(slice@),
{
    calculate_checksum(slice)
}

/// Decodes the IPv4 header at the start of `data` and names its upper
/// protocol, `None` when the number is not one this stack knows.
pub fn read_packet(data: &[u8]) -> (r: Result<Option<ProtoType>, DecodeError>)
    ensures
        match r {
            Ok(p) => ipv4_error(data@) is None && p == ipv4_header(data@).protocol,
            Err(e) => ipv4_error(data@) == Some(e),
        },
{
    let slice = Ipv4PacketSlice::read_from_slice(data)?;
    let ip_data = IPv4Packet::from_slice(slice);
    Ok(ip_data.protocol)
}

} // verus!
