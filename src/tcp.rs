//! TCP: segment header decoding and the answer to a connection request
//! (the SYN-ACK of a three-way handshake). No connection state is kept.

use vstd::prelude::*;
use crate::checksum::{internet_checksum, lemma_checksum_verifies, lemma_fold_bound, word_sum, zero_word};
use crate::ipv4::{calculate_checksum, IPv4Packet};
use crate::wire::{
    be16, be32, push_all, push_u16, push_u32, read_u16, read_u32, splice, u16_bytes, u32_bytes,
    write_bytes, write_u16, write_u32, DecodeError,
};

verus! {

/// The nine control bits of a TCP header.
#[derive(Clone, Copy, Debug, PartialEq, Eq, Structural)]
pub struct TcpHeaderFlags {
    /// ECN-nonce concealment protection.
    pub ns: bool,
    /// Congestion window reduced.
    pub cwr: bool,
    /// ECN echo.
    pub ece: bool,
    /// The urgent pointer is significant.
    pub urg: bool,
    /// The acknowledgment number is significant.
    pub ack: bool,
    /// Push the data to the application.
    pub psh: bool,
    /// Reset the connection.
    pub rst: bool,
    /// Synchronise sequence numbers.
    pub syn: bool,
    /// The sender has no more data.
    pub fin: bool,
}

/// Whether bit `k` (counted from the low end, `unit == 2^k`) of `b` is set.
pub open spec fn bit_set(b: u8, unit: int) -> bool {
    (b as int / unit) % 2 == 1
}

/// The control bits held in bytes 12 and 13 of the header `h`.
pub open spec fn flags_of(h: Seq<u8>) -> TcpHeaderFlags {
    TcpHeaderFlags {
        ns: bit_set(h[12], 1),
        cwr: bit_set(h[13], 128),
        ece: bit_set(h[13], 64),
        urg: bit_set(h[13], 32),
        ack: bit_set(h[13], 16),
        psh: bit_set(h[13], 8),
        rst: bit_set(h[13], 4),
        syn: bit_set(h[13], 2),
        fin: bit_set(h[13], 1),
    }
}

/// The value of a bit that is set when `b` holds.
pub open spec fn bit_value(b: bool, unit: int) -> int {
    if b {
        unit
    } else {
        0
    }
}

/// The two bytes that carry the control bits: NS in the low bit of the
/// first, the other eight in the second.
pub open spec fn flag_bytes(f: TcpHeaderFlags) -> Seq<u8> {
    seq![
        bit_value(f.ns, 1) as u8,
        (bit_value(f.cwr, 128) + bit_value(f.ece, 64) + bit_value(f.urg, 32) + bit_value(f.ack, 16)
            + bit_value(f.psh, 8) + bit_value(f.rst, 4) + bit_value(f.syn, 2) + bit_value(f.fin, 1)) as u8,
    ]
}

/// `unit` when `b` holds, else zero.
fn flag_value(b: bool, unit: u8) -> (r: u8)
    ensures
        r == bit_value(b, unit as int),
        r <= unit,
{
    if b {
        unit
    } else {
        0
    }
}

impl TcpHeaderFlags {
    /// All flags clear.
    pub fn new() -> (r: Self)
        ensures
            !r.ns && !r.cwr && !r.ece && !r.urg && !r.ack && !r.psh && !r.rst && !r.syn && !r.fin,
    {
        TcpHeaderFlags {
            ns: false,
            cwr: false,
            ece: false,
            urg: false,
            ack: false,
            psh: false,
            rst: false,
            syn: false,
            fin: false,
        }
    }

    /// The flags as they stand in bytes 12 (NS only) and 13 of a header.
    pub fn to_u8(&self) -> (r: [u8; 2])
        ensures
            r@ == flag_bytes(*self),
    {
        let first = flag_value(self.ns, 0x01);
        let high: u8 = flag_value(self.cwr, 0x80) + flag_value(self.ece, 0x40) + flag_value(
            self.urg,
            0x20,
        ) + flag_value(self.ack, 0x10);
        let low: u8 = flag_value(self.psh, 0x08) + flag_value(self.rst, 0x04) + flag_value(
            self.syn,
            0x02,
        ) + flag_value(self.fin, 0x01);
        let b: u8 = high + low;
        let ret: [u8; 2] = [first, b];
        assert(ret@ =~= flag_bytes(*self));
        ret
    }
}

/// A decoded TCP header.
#[derive(Clone, Copy, Debug, PartialEq, Eq)]
pub struct TcpHeader {
    pub src_port: u16,
    pub dst_port: u16,
    pub seq_number: u32,
    pub ack_number: u32,
    /// Header length in bytes (the header field counts 32-bit words).
    pub data_offset: u8,
    /// The three reserved bits; zero in a well-formed header.
    pub reserved: u8,
    pub flags: TcpHeaderFlags,
    pub window_size: u16,
    pub checksum: u16,
    pub urgent_pointer: u16,
    /// The option bytes, padded with zeros to the 40-byte maximum.
    pub options: [u8; 40],
}

/// Length of a header without options.
pub const TCP_MIN_HEADER: usize = 20;

/// Length of the header this stack sends: 20 bytes and 20 of options.
pub const TCP_REPLY_HEADER: usize = 40;

/// The sequence number this stack starts a connection with.
pub const INITIAL_SEQUENCE: u32 = 300;

/// The header length in 32-bit words, from byte 12 of `h`.
pub open spec fn data_offset_words(h: Seq<u8>) -> int {
    h[12] as int / 16
}

/// Why `h` is not a TCP header, or `None` when it is one: at least
/// 20 bytes, a data offset of at least five words, and long enough for
/// that offset.
pub open spec fn tcp_error(h: Seq<u8>) -> Option<DecodeError> {
    if h.len() < TCP_MIN_HEADER {
        Some(DecodeError::Truncated)
    } else if data_offset_words(h) < 5 {
        Some(DecodeError::BadDataOffset)
    } else if data_offset_words(h) * 4 > h.len() {
        Some(DecodeError::Truncated)
    } else {
        None
    }
}

/// The option bytes of `h` followed by zeros up to 40 bytes.
pub open spec fn padded_options(h: Seq<u8>) -> Seq<u8> {
    let end = data_offset_words(h) * 4;
    h.subrange(20, end) + Seq::new((60 - end) as nat, |i: int| 0u8)
}

/// Whether `t` holds the fields of the TCP header `h`.
pub open spec fn is_tcp_header(t: TcpHeader, h: Seq<u8>) -> bool {
    &&& t.src_port == be16(h, 0)
    &&& t.dst_port == be16(h, 2)
    &&& t.seq_number == be32(h, 4)
    &&& t.ack_number == be32(h, 8)
    &&& t.data_offset == data_offset_words(h) * 4
    &&& t.reserved == (h[12] / 2) % 8
    &&& t.flags == flags_of(h)
    &&& t.window_size == be16(h, 14)
    &&& t.checksum == be16(h, 16)
    &&& t.urgent_pointer == be16(h, 18)
    &&& t.options@ == padded_options(h)
}

/// The 60 bytes that encode `t`; the data offset and reserved fields keep
/// only the bits their widths hold.
pub open spec fn tcp_header_bytes(t: TcpHeader) -> Seq<u8> {
    u16_bytes(t.src_port) + u16_bytes(t.dst_port) + u32_bytes(t.seq_number) + u32_bytes(
        t.ack_number,
    ) + seq![
        (((t.data_offset / 4) % 16) * 16 + (t.reserved % 8) * 2 + flag_bytes(t.flags)[0]) as u8,
        flag_bytes(t.flags)[1],
    ] + u16_bytes(t.window_size) + u16_bytes(t.checksum) + u16_bytes(t.urgent_pointer)
        + t.options@
}

/// The pseudo-header that precedes a segment of `len` bytes in its checksum.
pub open spec fn pseudo_header(src_ip: u32, dst_ip: u32, len: nat) -> Seq<u8> {
    u32_bytes(src_ip) + u32_bytes(dst_ip) + seq![0u8, 6u8] + u16_bytes(len as u16)
}

/// The checksum of the segment `seg` sent from `src_ip` to `dst_ip`.
pub open spec fn segment_checksum(src_ip: u32, dst_ip: u32, seg: Seq<u8>) -> int {
    internet_checksum(pseudo_header(src_ip, dst_ip, seg.len()) + seg)
}

/// `x + 1` in sequence-number space, which wraps at 2^32.
pub open spec fn seq_next(x: int) -> u32 {
    ((x + 1) % 0x1_0000_0000) as u32
}

/// The sequence number of the answer to `h`: the initial one when `h`
/// acknowledges nothing, else one past what it acknowledges.
pub open spec fn reply_sequence(h: Seq<u8>) -> u32 {
    if be32(h, 8) == 0 {
        INITIAL_SEQUENCE
    } else {
        seq_next(be32(h, 8))
    }
}

/// The SYN-ACK answer to `h` with a zero checksum: ports swapped, sequence
/// number chosen, acknowledgment one past `h`'s sequence number, a 40-byte
/// header, SYN and ACK set, window and urgent pointer kept, and the first
/// 20 option bytes of `h` (zero-padded).
pub open spec fn syn_ack_unsummed(h: Seq<u8>) -> Seq<u8> {
    h.subrange(2, 4) + h.subrange(0, 2) + u32_bytes(reply_sequence(h)) + u32_bytes(
        seq_next(be32(h, 4)),
    ) + seq![0xa0u8, 0x12u8] + h.subrange(14, 16) + seq![0u8, 0u8] + h.subrange(18, 20)
        + padded_options(h).subrange(0, 20)
}

/// The SYN-ACK answer to `h`, sent from `src_ip` to `dst_ip`, with its checksum.
pub open spec fn syn_ack_bytes(h: Seq<u8>, src_ip: u32, dst_ip: u32) -> Seq<u8> {
    let u = syn_ack_unsummed(h);
    splice(u, 16, u16_bytes(segment_checksum(src_ip, dst_ip, u) as u16))
}

/// An answer with a checksum made by `syn_ack_bytes` sums to zero together
/// with its pseudo-header; it carries SYN and ACK and acknowledges one past
/// the request's sequence number.
pub proof fn lemma_syn_ack_verifies(h: Seq<u8>, src_ip: u32, dst_ip: u32)
    requires
        tcp_error(h) is None,
    ensures
        syn_ack_bytes(h, src_ip, dst_ip).len() == TCP_REPLY_HEADER,
        syn_ack_bytes(h, src_ip, dst_ip)[13] == 0x12,
        be32(syn_ack_bytes(h, src_ip, dst_ip), 8) == seq_next(be32(h, 4)),
        internet_checksum(
            pseudo_header(src_ip, dst_ip, TCP_REPLY_HEADER as nat) + syn_ack_bytes(h, src_ip, dst_ip),
        ) == 0,
{
    let u = syn_ack_unsummed(h);
    let s = syn_ack_bytes(h, src_ip, dst_ip);
    let p = pseudo_header(src_ip, dst_ip, TCP_REPLY_HEADER as nat);
    let c = segment_checksum(src_ip, dst_ip, u);
    assert(u.len() == 40);
    lemma_fold_bound(word_sum(p + u));
    crate::wire::lemma_be16_of_bytes(c as u16);
    let full = p + s;
    assert(p.len() == 12);
    assert(zero_word(full, 28) =~= p + u);
    assert(be16(full, 28) == be16(u16_bytes(c as u16), 0));
    lemma_checksum_verifies(full, 28);
    let a = seq_next(be32(h, 4));
    assert(s.subrange(8, 12) =~= u32_bytes(a));
    crate::wire::lemma_be32_of_bytes(a);
}

/// A checked view of a TCP header inside a received buffer.
#[derive(Debug, PartialEq, Eq)]
pub struct TcpPacketSlice<'a> {
    slice: &'a [u8],
}

impl<'a> View for TcpPacketSlice<'a> {
    type V = Seq<u8>;

    closed spec fn view(&self) -> Seq<u8> {
        self.slice@
    }
}

impl<'a> TcpPacketSlice<'a> {
    #[verifier::type_invariant]
    closed spec fn inv(&self) -> bool {
        tcp_error(self.slice@) is None
    }

    pub fn src_port(&self) -> (r: u16)
        ensures
            r == be16(self@, 0),
    {
        proof {
            use_type_invariant(self);
        }
        read_u16(self.slice, 0)
    }

    pub fn dst_port(&self) -> (r: u16)
        ensures
            r == be16(self@, 2),
    {
        proof {
            use_type_invariant(self);
        }
        read_u16(self.slice, 2)
    }

    pub fn seq_number(&self) -> (r: u32)
        ensures
            r == be32(self@, 4),
    {
        proof {
            use_type_invariant(self);
        }
        read_u32(self.slice, 4)
    }

    pub fn ack_number(&self) -> (r: u32)
        ensures
            r == be32(self@, 8),
    {
        proof {
            use_type_invariant(self);
        }
        read_u32(self.slice, 8)
    }

    /// The header length in bytes: four times the word count in the high
    /// half of byte 12, between 20 and 60.
    pub fn data_offset(&self) -> (r: u8)
        ensures
            r == data_offset_words(self@) * 4,
            TCP_MIN_HEADER <= r <= 60,
            r <= self@.len(),
    {
        proof {
            use_type_invariant(self);
        }
        (self.slice[12] / 16) * 4
    }

    /// The number of option bytes: the header length less the 20 fixed
    /// bytes, between 0 and 40.
    pub fn options_len(&self) -> (r: usize)
        ensures
            r == data_offset_words(self@) * 4 - 20,
            r <= 40,
    {
        self.data_offset() as usize - TCP_MIN_HEADER
    }

    /// The three reserved bits of byte 12.
    pub fn reserved(&self) -> (r: u8)
        ensures
            r == (self@[12] / 2) % 8,
    {
        proof {
            use_type_invariant(self);
        }
        (self.slice[12] / 2) % 8
    }

    pub fn flags(&self) -> (r: TcpHeaderFlags)
        ensures
            r == flags_of(self@),
    {
        proof {
            use_type_invariant(self);
        }
        let b12 = self.slice[12];
        let b13 = self.slice[13];
        TcpHeaderFlags {
            ns: b12 % 2 == 1,
            cwr: (b13 / 128) % 2 == 1,
            ece: (b13 / 64) % 2 == 1,
            urg: (b13 / 32) % 2 == 1,
            ack: (b13 / 16) % 2 == 1,
            psh: (b13 / 8) % 2 == 1,
            rst: (b13 / 4) % 2 == 1,
            syn: (b13 / 2) % 2 == 1,
            fin: b13 % 2 == 1,
        }
    }

    pub fn window_size(&self) -> (r: u16)
        ensures
            r == be16(self@, 14),
    {
        proof {
            use_type_invariant(self);
        }
        read_u16(self.slice, 14)
    }

    pub fn checksum(&self) -> (r: u16)
        ensures
            r == be16(self@, 16),
    {
        proof {
            use_type_invariant(self);
        }
        read_u16(self.slice, 16)
    }

    pub fn urgent_pointer(&self) -> (r: u16)
        ensures
            r == be16(self@, 18),
    {
        proof {
            use_type_invariant(self);
        }
        read_u16(self.slice, 18)
    }

    /// The option bytes, followed by zeros up to the 40-byte maximum.
    pub fn options(&self) -> (r: [u8; 40])
        ensures
            r@ == padded_options(self@),
    {
        proof {
            use_type_invariant(self);
        }
        let end = self.data_offset() as usize;
        let mut ret = [0u8; 40];
        write_bytes(&mut ret, 0, &self.slice[20..end]);
        assert(ret@ =~= padded_options(self@));
        ret
    }

    /// Views `data` as a TCP header, checking that its data offset is at
    /// least five words and that it holds the whole header.
    pub fn read_from_slice(data: &'a [u8]) -> (r: Result<Self, DecodeError>)
        ensures
            match r {
                Ok(p) => tcp_error(data@) is None && p@ == data@,
                Err(e) => tcp_error(data@) == Some(e),
            },
    {
        if data.len() < TCP_MIN_HEADER {
            Err(DecodeError::Truncated)
        } else if data[12] / 16 < 5 {
            Err(DecodeError::BadDataOffset)
        } else if ((data[12] / 16) as usize) * 4 > data.len() {
            Err(DecodeError::Truncated)
        } else {
            Ok(TcpPacketSlice { slice: data })
        }
    }
}

impl TcpHeader {
    /// Decodes every field of the header that `slice` views.
    pub fn from_slice(slice: &TcpPacketSlice) -> (r: Self)
        ensures
            is_tcp_header(r, slice@),
    {
        TcpHeader {
            src_port: slice.src_port(),
            dst_port: slice.dst_port(),
            seq_number: slice.seq_number(),
            ack_number: slice.ack_number(),
            data_offset: slice.data_offset(),
            reserved: slice.reserved(),
            flags: slice.flags(),
            window_size: slice.window_size(),
            checksum: slice.checksum(),
            urgent_pointer: slice.urgent_pointer(),
            options: slice.options(),
        }
    }

    /// Encodes the header with all 40 option bytes.
    pub fn to_slice(&self) -> (r: [u8; 60])
        ensures
            r@ == tcp_header_bytes(*self),
    {
        let mut ret = [0u8; 60];
        write_u16(&mut ret, 0, self.src_port);
        write_u16(&mut ret, 2, self.dst_port);
        write_u32(&mut ret, 4, self.seq_number);
        write_u32(&mut ret, 8, self.ack_number);
        let flags_u8 = self.flags.to_u8();
        ret[12] = ((self.data_offset / 4) % 16) * 16 + (self.reserved % 8) * 2 + flags_u8[0];
        ret[13] = flags_u8[1];
        write_u16(&mut ret, 14, self.window_size);
        write_u16(&mut ret, 16, self.checksum);
        write_u16(&mut ret, 18, self.urgent_pointer);
        write_bytes(&mut ret, 20, &self.options);
        assert(ret@ =~= tcp_header_bytes(*self));
        ret
    }

    /// Swaps the source and destination ports.
    pub fn flip_sd(&mut self)
        ensures
            *final(self) == (TcpHeader {
                src_port: old(self).dst_port,
                dst_port: old(self).src_port,
                ..*old(self)
            }),
    {
        let new_dst = self.src_port;
        let new_src = self.dst_port;
        self.dst_port = new_dst;
        self.src_port = new_src;
    }
}

/// The checksum of `seg` sent from `src_ip` to `dst_ip`.
fn segment_sum(src_ip: u32, dst_ip: u32, seg: &[u8]) -> (r: u16)
    requires
        seg@.len() <= 0xffff,
    ensures
        r == segment_checksum(src_ip, dst_ip, seg@),
{
    let mut buf: Vec<u8> = Vec::new();
    push_u32(&mut buf, src_ip);
    push_u32(&mut buf, dst_ip);
    buf.push(0);
    buf.push(6);
    push_u16(&mut buf, seg.len() as u16);
    push_all(&mut buf, seg);
    assert(buf@ =~= pseudo_header(src_ip, dst_ip, seg@.len()) + seg@);
    calculate_checksum(&buf)
}

/// The checksum of the segment that `tcp_packet` views, sent between the
/// addresses of `ipv4_packet`.
pub fn tcp_checksum(tcp_packet: &TcpPacketSlice, ipv4_packet: &IPv4Packet) -> (r: u16)
    requires
        tcp_packet@.len() <= 0xffff,
    ensures
        r == segment_checksum(ipv4_packet.source_ip, ipv4_packet.dest_ip, tcp_packet@),
{
    proof {
        use_type_invariant(tcp_packet);
    }
    segment_sum(ipv4_packet.source_ip, ipv4_packet.dest_ip, tcp_packet.slice)
}

/// `x + 1`, wrapping at 2^32.
fn next_sequence(x: u32) -> (r: u32)
    ensures
        r == seq_next(x as int),
{
    if x == u32::MAX {
        0
    } else {
        x + 1
    }
}

/// Whether `h` holds SYN as its only flag.
pub open spec fn is_pure_syn(h: Seq<u8>) -> bool {
    flags_of(h) == (TcpHeaderFlags {
        ns: false,
        cwr: false,
        ece: false,
        urg: false,
        ack: false,
        psh: false,
        rst: false,
        syn: true,
        fin: false,
    })
}

/// Handles one received TCP segment, carried in the IPv4 datagram whose
/// header is `ipv4_packet`. A segment whose only flag is SYN gets the
/// 40-byte SYN-ACK answer, sent back to where it came from; any other
/// segment gets none. A malformed header fails to decode.
pub fn read_packet(data: &[u8], ipv4_packet: &IPv4Packet) -> (r: Result<
    Option<[u8; 40]>,
    DecodeError,
>)
    ensures
        match r {
            Ok(Some(b)) => tcp_error(data@) is None && is_pure_syn(data@) && b@ == syn_ack_bytes(
                data@,
                ipv4_packet.dest_ip,
                ipv4_packet.source_ip,
            ),
            Ok(None) => tcp_error(data@) is None && !is_pure_syn(data@),
            Err(e) => tcp_error(data@) == Some(e),
        },
{
    let tcp_slice = TcpPacketSlice::read_from_slice(data)?;
    let mut tcp_packet = TcpHeader::from_slice(&tcp_slice);
    let syn_only = TcpHeaderFlags {
        ns: false,
        cwr: false,
        ece: false,
        urg: false,
        ack: false,
        psh: false,
        rst: false,
        syn: true,
        fin: false,
    };
    if tcp_packet.flags != syn_only {
        return Ok(None);
    }
    let ghost h = data@;
    tcp_packet.flags.ack = true;
    tcp_packet.flip_sd();
    tcp_packet.data_offset = TCP_REPLY_HEADER as u8;
    tcp_packet.reserved = 0;
    let old_ack = tcp_packet.ack_number;
    let old_seq = tcp_packet.seq_number;
    tcp_packet.ack_number = next_sequence(old_seq);
    if old_ack == 0 {
        tcp_packet.seq_number = INITIAL_SEQUENCE;
    } else {
        tcp_packet.seq_number = next_sequence(old_ack);
    }
    tcp_packet.checksum = 0;
    let tcp_outbuf = tcp_packet.to_slice();
    proof {
        crate::wire::lemma_bytes_of_be16(h, 0);
        crate::wire::lemma_bytes_of_be16(h, 2);
        crate::wire::lemma_bytes_of_be16(h, 14);
        crate::wire::lemma_bytes_of_be16(h, 18);
        assert(tcp_outbuf@.subrange(0, 40) =~= syn_ack_unsummed(h));
    }
    let csum = segment_sum(ipv4_packet.dest_ip, ipv4_packet.source_ip, &tcp_outbuf[0..TCP_REPLY_HEADER]);
    tcp_packet.checksum = csum;
    let tcp_outbuf = tcp_packet.to_slice();
    let mut reply = [0u8; 40];
    write_bytes(&mut reply, 0, &tcp_outbuf[0..TCP_REPLY_HEADER]);
    assert(reply@ =~= syn_ack_bytes(h, ipv4_packet.dest_ip, ipv4_packet.source_ip));
    Ok(Some(reply))
}

} // verus!
