use pct::ipv4::{calculate_checksum, IPv4Packet, ProtoType};
use pct::tcp::{read_packet, tcp_checksum, TcpHeader, TcpHeaderFlags, TcpPacketSlice};
use pct::wire::DecodeError;

fn ip_header() -> IPv4Packet {
    IPv4Packet {
        version: 4,
        ihl: 5,
        dscp: 0,
        ecn: 0,
        total_len: 40,
        identification: 1,
        flags: 2,
        fragment_offset: 0,
        ttl: 64,
        protocol: Some(ProtoType::TCP),
        header_checksum: 0,
        source_ip: 0x0a000001,
        dest_ip: 0x0a000002,
    }
}

fn syn(seq: u32, ack: u32) -> Vec<u8> {
    let mut v = vec![0xc3, 0x50, 0x00, 0x50];
    v.extend_from_slice(&seq.to_be_bytes());
    v.extend_from_slice(&ack.to_be_bytes());
    v.extend_from_slice(&[0x50, 0x02, 0xfa, 0xf0, 0x00, 0x00, 0x00, 0x00]);
    v
}

fn pseudo_checksum(src: [u8; 4], dst: [u8; 4], seg: &[u8]) -> u16 {
    let mut v = Vec::new();
    v.extend_from_slice(&src);
    v.extend_from_slice(&dst);
    v.extend_from_slice(&[0, 6]);
    v.extend_from_slice(&(seg.len() as u16).to_be_bytes());
    v.extend_from_slice(seg);
    calculate_checksum(&v)
}

#[test]
fn syn_gets_syn_ack() {
    let r = read_packet(&syn(100, 0), &ip_header()).unwrap().unwrap();
    let s = TcpPacketSlice::read_from_slice(&r).unwrap();
    let h = TcpHeader::from_slice(&s);
    assert!(h.flags.syn);
    assert!(h.flags.ack);
    assert!(!h.flags.rst && !h.flags.fin && !h.flags.psh);
    assert_eq!(h.ack_number, 101);
    assert_eq!(h.seq_number, 300);
    assert_eq!(h.src_port, 80);
    assert_eq!(h.dst_port, 50000);
    assert_eq!(h.data_offset, 40);
    assert_eq!(h.window_size, 0xfaf0);
    assert_eq!(h.checksum, 0x8b99);
    assert_eq!(pseudo_checksum([10, 0, 0, 2], [10, 0, 0, 1], &r), 0);
}

#[test]
fn syn_with_ack_number_continues_sequence() {
    let r = read_packet(&syn(7, 0x1000), &ip_header()).unwrap().unwrap();
    let s = TcpPacketSlice::read_from_slice(&r).unwrap();
    assert_eq!(s.seq_number(), 0x1001);
    assert_eq!(s.ack_number(), 8);
    assert_eq!(pseudo_checksum([10, 0, 0, 2], [10, 0, 0, 1], &r), 0);
}

#[test]
fn sequence_numbers_wrap() {
    let r = read_packet(&syn(u32::MAX, u32::MAX), &ip_header()).unwrap().unwrap();
    let s = TcpPacketSlice::read_from_slice(&r).unwrap();
    assert_eq!(s.ack_number(), 0);
    assert_eq!(s.seq_number(), 0);
}

#[test]
fn syn_options_are_carried() {
    let mut seg = syn(100, 0);
    seg[12] = 0x60;
    seg.extend_from_slice(&[0x02, 0x04, 0x05, 0xb4]);
    let r = read_packet(&seg, &ip_header()).unwrap().unwrap();
    assert_eq!(r[20..24], [0x02, 0x04, 0x05, 0xb4]);
    assert_eq!(r[24..], [0u8; 16]);
    assert_eq!(pseudo_checksum([10, 0, 0, 2], [10, 0, 0, 1], &r), 0);
}

#[test]
fn non_syn_segments_get_no_answer() {
    let mut seg = syn(100, 5);
    seg[13] = 0x10;
    assert_eq!(read_packet(&seg, &ip_header()), Ok(None));
    seg[13] = 0x12;
    assert_eq!(read_packet(&seg, &ip_header()), Ok(None));
    seg[13] = 0x03;
    assert_eq!(read_packet(&seg, &ip_header()), Ok(None));
}

#[test]
fn malformed_headers_are_rejected() {
    let seg = syn(100, 0);
    assert_eq!(read_packet(&seg[..19], &ip_header()), Err(DecodeError::Truncated));
    let mut low = seg.clone();
    low[12] = 0x40;
    assert_eq!(read_packet(&low, &ip_header()), Err(DecodeError::BadDataOffset));
    let mut long = seg.clone();
    long[12] = 0x60;
    assert_eq!(read_packet(&long, &ip_header()), Err(DecodeError::Truncated));
}

#[test]
fn options_length_follows_data_offset() {
    for words in 5u8..=15 {
        let mut seg = syn(1, 0);
        seg[12] = words << 4;
        seg.resize(60, 0);
        let s = TcpPacketSlice::read_from_slice(&seg).unwrap();
        assert_eq!(s.data_offset(), words * 4);
        assert_eq!(s.options_len(), (words as usize) * 4 - 20);
        assert!(s.options_len() <= 40);
    }
    for words in 0u8..5 {
        let mut seg = syn(1, 0);
        seg[12] = words << 4;
        seg.resize(60, 0);
        assert_eq!(TcpPacketSlice::read_from_slice(&seg).unwrap_err(), DecodeError::BadDataOffset);
    }
}

#[test]
fn tcp_header_fields_decode() {
    let mut seg = syn(0x01020304, 0x0a0b0c0d);
    seg[12] = 0x5d;
    seg[13] = 0xff;
    seg[16] = 0xab;
    seg[17] = 0xcd;
    seg[18] = 0x00;
    seg[19] = 0x09;
    let s = TcpPacketSlice::read_from_slice(&seg).unwrap();
    assert_eq!(s.src_port(), 50000);
    assert_eq!(s.dst_port(), 80);
    assert_eq!(s.seq_number(), 0x01020304);
    assert_eq!(s.ack_number(), 0x0a0b0c0d);
    assert_eq!(s.reserved(), 6);
    assert_eq!(s.checksum(), 0xabcd);
    assert_eq!(s.urgent_pointer(), 9);
    assert_eq!(s.window_size(), 0xfaf0);
    let f = s.flags();
    assert!(f.ns && f.cwr && f.ece && f.urg && f.ack && f.psh && f.rst && f.syn && f.fin);
    assert_eq!(s.options(), [0u8; 40]);
}

#[test]
fn flags_encode() {
    let mut f = TcpHeaderFlags::new();
    assert_eq!(f.to_u8(), [0, 0]);
    f.syn = true;
    f.ack = true;
    assert_eq!(f.to_u8(), [0, 0x12]);
    f.ns = true;
    f.fin = true;
    f.cwr = true;
    assert_eq!(f.to_u8(), [1, 0x93]);
}

#[test]
fn header_encodes_and_flips() {
    let seg = syn(100, 0);
    let s = TcpPacketSlice::read_from_slice(&seg).unwrap();
    let mut h = TcpHeader::from_slice(&s);
    assert_eq!(h.to_slice()[..20], seg[..]);
    h.flip_sd();
    assert_eq!(h.src_port, 80);
    assert_eq!(h.dst_port, 50000);
    assert_eq!(h.to_slice()[0..4], [0x00, 0x50, 0xc3, 0x50]);
}

#[test]
fn segment_checksum_uses_pseudo_header() {
    let seg = syn(100, 0);
    let s = TcpPacketSlice::read_from_slice(&seg).unwrap();
    let c = tcp_checksum(&s, &ip_header());
    assert_eq!(c, pseudo_checksum([10, 0, 0, 1], [10, 0, 0, 2], &seg));
    let mut filled = seg.clone();
    filled[16] = (c >> 8) as u8;
    filled[17] = c as u8;
    assert_eq!(pseudo_checksum([10, 0, 0, 1], [10, 0, 0, 2], &filled), 0);
}
