//! ICMP: message decoding and answers to echo requests.

use vstd::prelude::*;
use crate::checksum::{internet_checksum, lemma_checksum_verifies, zero_word};
use crate::ipv4::calculate_checksum;
use crate::wire::{be16, push_all, read_u16, u16_bytes, write_bytes, DecodeError};

verus! {

/// ICMP message types.
#[derive(Clone, Copy, Debug, PartialEq, Eq, Structural)]
pub enum IcmpType {
    /// Echo reply (0).
    Reply,
    /// Destination unreachable (3).
    DstUnreachable,
    /// Source quench (4).
    SrcQuench,
    /// Redirect (5).
    Redirect,
    /// Echo request (8).
    Echo,
    /// Router advertisement (9).
    RouterAdv,
    /// Router solicitation (10).
    RouterSol,
    /// Time exceeded (11).
    Timeout,
    /// Parameter problem (12).
    Malformed,
    /// Any type number not listed above.
    Error,
}

/// The message type that an ICMP type number names, if it is one of ours.
pub open spec fn icmp_type_of(value: u8) -> Option<IcmpType> {
    if value == 0 {
        Some(IcmpType::Reply)
    } else if value == 3 {
        Some(IcmpType::DstUnreachable)
    } else if value == 4 {
        Some(IcmpType::SrcQuench)
    } else if value == 5 {
        Some(IcmpType::Redirect)
    } else if value == 8 {
        Some(IcmpType::Echo)
    } else if value == 9 {
        Some(IcmpType::RouterAdv)
    } else if value == 10 {
        Some(IcmpType::RouterSol)
    } else if value == 11 {
        Some(IcmpType::Timeout)
    } else if value == 12 {
        Some(IcmpType::Malformed)
    } else {
        None
    }
}

impl IcmpType {
    /// Maps an ICMP type number to the message type, `None` when unknown.
    pub fn from_u8(value: u8) -> (r: Option<IcmpType>)
        ensures
            r == icmp_type_of(value),
    {
        match value {
            0x00 => Some(IcmpType::Reply),
            0x03 => Some(IcmpType::DstUnreachable),
            0x04 => Some(IcmpType::SrcQuench),
            0x05 => Some(IcmpType::Redirect),
            0x08 => Some(IcmpType::Echo),
            0x09 => Some(IcmpType::RouterAdv),
            0x0a => Some(IcmpType::RouterSol),
            0x0b => Some(IcmpType::Timeout),
            0x0c => Some(IcmpType::Malformed),
            _ => None,
        }
    }
}

/// A decoded ICMP message.
#[derive(Clone, Debug, PartialEq, Eq)]
pub struct IcmpPacket {
    /// The purpose of the message.
    pub msg_type: IcmpType,
    /// The subtype of the message.
    pub code: u8,
    /// The checksum the message carries.
    pub checksum: u16,
    /// Four bytes whose meaning depends on the type; identifier and
    /// sequence number for echo messages.
    pub rest_of_header: [u8; 4],
    /// Everything after the first eight bytes.
    pub rest_of_packet: Vec<u8>,
}

/// Length of the fixed part of an ICMP message.
pub const ICMP_HEADER_LEN: usize = 8;

/// Whether `p` holds the fields of the ICMP message `h`.
pub open spec fn is_icmp_packet(p: IcmpPacket, h: Seq<u8>) -> bool {
    &&& p.msg_type == (match icmp_type_of(h[0]) {
        Some(t) => t,
        None => IcmpType::Error,
    })
    &&& p.code == h[1]
    &&& p.checksum == be16(h, 2)
    &&& p.rest_of_header@ == h.subrange(4, 8)
    &&& p.rest_of_packet@ == h.subrange(8, h.len() as int)
}

/// The echo reply to the echo request `h`: type 0, code 0, the same
/// identifier, sequence number and payload, and its own checksum.
pub open spec fn echo_reply_bytes(h: Seq<u8>) -> Seq<u8> {
    let body = seq![0u8, 0u8, 0u8, 0u8] + h.subrange(4, h.len() as int);
    seq![0u8, 0u8] + u16_bytes(internet_checksum(body) as u16) + h.subrange(4, h.len() as int)
}

/// An echo reply keeps everything after the checksum and sums to zero.
pub proof fn lemma_echo_reply_verifies(h: Seq<u8>)
    requires
        h.len() >= ICMP_HEADER_LEN,
    ensures
        echo_reply_bytes(h).len() == h.len(),
        echo_reply_bytes(h)[0] == 0,
        echo_reply_bytes(h)[1] == 0,
        echo_reply_bytes(h).subrange(4, h.len() as int) == h.subrange(4, h.len() as int),
        internet_checksum(echo_reply_bytes(h)) == 0,
{
    let body = seq![0u8, 0u8, 0u8, 0u8] + h.subrange(4, h.len() as int);
    let r = echo_reply_bytes(h);
    let c = internet_checksum(body);
    crate::checksum::lemma_fold_bound(crate::checksum::word_sum(body));
    assert(zero_word(r, 2) =~= body);
    assert(r.subrange(4, h.len() as int) =~= h.subrange(4, h.len() as int));
    lemma_checksum_verifies(r, 2);
}

/// A checked view of an ICMP message inside a received buffer.
#[derive(Debug, PartialEq, Eq)]
pub struct IcmpPacketSlice<'a> {
    slice: &'a [u8],
}

impl<'a> View for IcmpPacketSlice<'a> {
    type V = Seq<u8>;

    closed spec fn view(&self) -> Seq<u8> {
        self.slice@
    }
}

impl<'a> IcmpPacketSlice<'a> {
    #[verifier::type_invariant]
    closed spec fn inv(&self) -> bool {
        self.slice@.len() >= ICMP_HEADER_LEN
    }

    /// The message type; `Error` for a number that is not known.
    pub fn msg_type(&self) -> (r: IcmpType)
        ensures
            r == (match icmp_type_of(self@[0]) {
                Some(t) => t,
                None => IcmpType::Error,
            }),
    {
        proof {
            use_type_invariant(self);
        }
        match IcmpType::from_u8(self.slice[0]) {
            Some(t) => t,
            None => IcmpType::Error,
        }
    }

    pub fn code(&self) -> (r: u8)
        ensures
            r == self@[1],
    {
        proof {
            use_type_invariant(self);
        }
        self.slice[1]
    }

    pub fn checksum(&self) -> (r: u16)
        ensures
            r == be16(self@, 2),
    {
        proof {
            use_type_invariant(self);
        }
        read_u16(self.slice, 2)
    }

    /// Bytes 4 to 7, whose meaning depends on the message type.
    pub fn rest_of_header(&self) -> (r: [u8; 4])
        ensures
            r@ == self@.subrange(4, 8),
    {
        proof {
            use_type_invariant(self);
        }
        let mut r = [0u8; 4];
        write_bytes(&mut r, 0, &self.slice[4..8]);
        assert(r@ =~= self@.subrange(4, 8));
        r
    }

    /// The payload bytes from 8 up to `len`.
    pub fn rest_of_packet(&self, len: usize) -> (r: &'a [u8])
        requires
            ICMP_HEADER_LEN <= len <= self@.len(),
        ensures
            r@ == self@.subrange(8, len as int),
    {
        &self.slice[8..len]
    }

    /// Views `data` as an ICMP message; it must hold the first 8 bytes.
    pub fn read_from_slice(data: &'a [u8]) -> (r: Result<Self, DecodeError>)
        ensures
            match r {
                Ok(p) => data@.len() >= ICMP_HEADER_LEN && p@ == data@,
                Err(e) => data@.len() < ICMP_HEADER_LEN && e == DecodeError::Truncated,
            },
    {
        if data.len() < ICMP_HEADER_LEN {
            Err(DecodeError::Truncated)
        } else {
            Ok(IcmpPacketSlice { slice: data })
        }
    }
}

impl IcmpPacket {
    /// Decodes every field of the message that `slice` views.
    pub fn from_slice(slice: &IcmpPacketSlice) -> (r: Self)
        ensures
            is_icmp_packet(r, slice@),
    {
        proof {
            use_type_invariant(slice);
        }
        let n = slice.slice.len();
        let mut rest: Vec<u8> = Vec::new();
        push_all(&mut rest, slice.rest_of_packet(n));
        IcmpPacket {
            msg_type: slice.msg_type(),
            code: slice.code(),
            checksum: slice.checksum(),
            rest_of_header: slice.rest_of_header(),
            rest_of_packet: rest,
        }
    }
}

/// Handles one received ICMP message. An echo request gets an echo reply;
/// an echo reply and every other type get none. Fewer than 8 bytes fail
/// to decode.
pub fn read_packet(icmpframe: &[u8]) -> (r: Result<Option<Vec<u8>>, DecodeError>)
    ensures
        match r {
            Ok(Some(b)) => icmpframe@.len() >= ICMP_HEADER_LEN && icmpframe@[0] == 8
                && b@ == echo_reply_bytes(icmpframe@),
            Ok(None) => icmpframe@.len() >= ICMP_HEADER_LEN && icmpframe@[0] != 8,
            Err(e) => icmpframe@.len() < ICMP_HEADER_LEN && e == DecodeError::Truncated,
        },
{
    let packet_slice = IcmpPacketSlice::read_from_slice(icmpframe)?;
    match packet_slice.msg_type() {
        IcmpType::Echo => {
            let n = icmpframe.len();
            let mut buf: Vec<u8> = Vec::new();
            buf.push(0);
            buf.push(0);
            buf.push(0);
            buf.push(0);
            push_all(&mut buf, &icmpframe[4..n]);
            assert(buf@ =~= seq![0u8, 0u8, 0u8, 0u8] + icmpframe@.subrange(4, n as int));
            let csum = calculate_checksum(&buf);
            buf.set(2, (csum / 256) as u8);
            buf.set(3, (csum % 256) as u8);
            assert(buf@ =~= echo_reply_bytes(icmpframe@));
            Ok(Some(buf))
        },
        _ => Ok(None),
    }
}

} // verus!
