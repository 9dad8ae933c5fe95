use pct::ipv4::{calculate_checksum, checksum, read_packet, IPv4Packet, Ipv4PacketSlice, ProtoType};
use pct::wire::DecodeError;

const HEADER: [u8; 20] = [
    0x45, 0x00, 0x00, 0x54, 0x41, 0xe0, 0x40, 0x00, 0x40, 0x01, 0xe4, 0xc0, 0x0a, 0x00, 0x00, 0x04,
    0x0a, 0x00, 0x00, 0x05,
];

#[test]
fn test_checksum() {
    let ret = calculate_checksum(&[
        0x45, 0x00, 0x00, 0x54, 0x41, 0xe0, 0x40, 0x00, 0x40, 0x01, 0x00, 0x00, 0x0a, 0x00, 0x00,
        0x04, 0x0a, 0x00, 0x00, 0x05,
    ]);

    assert_eq!(ret, 0xe4c0);

    let next = &[
        0x45, 0x00, 0x00, 0x54, 0x41, 0xe0, 0x40, 0x00, 0x40, 0x01, 0xe4, 0xc0, 0x0a, 0x00, 0x00,
        0x04, 0x0a, 0x00, 0x00, 0x05,
    ];

    assert_eq!(calculate_checksum(next), 0);
}

#[test]
fn checksum_of_empty_input_is_all_ones() {
    assert_eq!(calculate_checksum(&[]), 0xffff);
}

#[test]
fn checksum_pads_a_trailing_odd_byte() {
    assert_eq!(calculate_checksum(&[0x01]), 0xfeff);
    assert_eq!(calculate_checksum(&[0x12, 0x34, 0x56]), 0x97cb);
}

#[test]
fn checksum_folds_carries() {
    assert_eq!(calculate_checksum(&[0xff, 0xff, 0xff, 0xff]), 0);
}

#[test]
fn word_checksum_matches_header_checksum() {
    assert_eq!(checksum(&HEADER), 0);
    let mut zeroed = HEADER;
    zeroed[10] = 0;
    zeroed[11] = 0;
    assert_eq!(checksum(&zeroed), 0xe4c0);
}

#[test]
fn stored_checksum_verifies_to_zero() {
    let mut h = [
        0x45u8, 0x10, 0x01, 0x00, 0x12, 0x34, 0x20, 0x05, 0x33, 0x06, 0x00, 0x00, 0xc0, 0xa8, 0x01,
        0x07, 0x08, 0x08, 0x04, 0x04,
    ];
    let c = calculate_checksum(&h);
    h[10] = (c >> 8) as u8;
    h[11] = c as u8;
    assert_eq!(calculate_checksum(&h), 0);
    h[10] = 0;
    h[11] = 0;
    assert_eq!(calculate_checksum(&h), c);
}

#[test]
fn ipv4_header_fields_decode() {
    let bytes = [
        0x45u8, 0xb9, 0x00, 0x54, 0x41, 0xe0, 0x5f, 0xff, 0x40, 0x01, 0xe4, 0xc0, 0x0a, 0x00, 0x00,
        0x04, 0x0a, 0x00, 0x00, 0x05,
    ];
    let s = Ipv4PacketSlice::read_from_slice(&bytes).unwrap();
    assert_eq!(s.version(), 4);
    assert_eq!(s.ihl(), 5);
    assert_eq!(s.dscp(), 0x2e);
    assert_eq!(s.ecn(), 1);
    assert_eq!(s.total_len(), 0x54);
    assert_eq!(s.identification(), 0x41e0);
    assert_eq!(s.flags(), 2);
    assert_eq!(s.fragment_offset(), 0x1fff);
    assert_eq!(s.ttl(), 0x40);
    assert_eq!(s.protocol(), Some(ProtoType::ICMP));
    assert_eq!(s.header_checksum(), 0xe4c0);
    assert_eq!(s.source_ip(), 0x0a000004);
    assert_eq!(s.destination_ip(), 0x0a000005);
    let p = IPv4Packet::from_slice(s);
    assert_eq!(p.version, 4);
    assert_eq!(p.dscp, 0x2e);
    assert_eq!(p.flags, 2);
    assert_eq!(p.source_ip, 0x0a000004);
    assert_eq!(p.dest_ip, 0x0a000005);
}

#[test]
fn short_header_is_truncated() {
    assert_eq!(Ipv4PacketSlice::read_from_slice(&HEADER[..19]).unwrap_err(), DecodeError::Truncated);
}

#[test]
fn wrong_version_is_rejected() {
    let mut h = HEADER;
    h[0] = 0x65;
    assert_eq!(Ipv4PacketSlice::read_from_slice(&h).unwrap_err(), DecodeError::BadVersion);
}

#[test]
fn header_length_beyond_view_is_truncated() {
    let mut h = HEADER;
    h[0] = 0x46;
    assert_eq!(Ipv4PacketSlice::read_from_slice(&h).unwrap_err(), DecodeError::Truncated);
}

#[test]
fn protocol_numbers_map_both_ways() {
    assert_eq!(ProtoType::from_u8(1), Some(ProtoType::ICMP));
    assert_eq!(ProtoType::from_u8(2), Some(ProtoType::IGMP));
    assert_eq!(ProtoType::from_u8(6), Some(ProtoType::TCP));
    assert_eq!(ProtoType::from_u8(17), Some(ProtoType::UDP));
    assert_eq!(ProtoType::from_u8(0x29), None);
    assert_eq!(ProtoType::to_u8(&Some(ProtoType::UDP)), 17);
    assert_eq!(ProtoType::to_u8(&Some(ProtoType::TCP)), 6);
    assert_eq!(ProtoType::to_u8(&None), 0);
}

#[test]
fn read_packet_names_the_protocol() {
    assert_eq!(read_packet(&HEADER), Ok(Some(ProtoType::ICMP)));
    let mut h = HEADER;
    h[9] = 0x32;
    assert_eq!(read_packet(&h), Ok(None));
    assert_eq!(read_packet(&HEADER[..10]), Err(DecodeError::Truncated));
}
