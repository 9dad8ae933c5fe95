use pct::eth::{local_mac, EtherType, EthernetFrameSlice, EthernetHeader};
use pct::pkt::build_eth;
use pct::wire::DecodeError;

const FRAME: [u8; 16] = [
    0xff, 0xff, 0xff, 0xff, 0xff, 0xff, 0x02, 0x11, 0x22, 0x33, 0x44, 0x55, 0x08, 0x06, 0xaa, 0xbb,
];

#[test]
fn eth_header_fields_decode() {
    let f = EthernetFrameSlice::read_from_slice(&FRAME).unwrap();
    let h = EthernetHeader::from_header_slice(&f);
    assert_eq!(h.destination, [0xff; 6]);
    assert_eq!(h.source, [0x02, 0x11, 0x22, 0x33, 0x44, 0x55]);
    assert_eq!(h.ethertype, 0x0806);
}

#[test]
fn short_frame_is_truncated() {
    assert_eq!(
        EthernetFrameSlice::read_from_slice(&FRAME[..13]).unwrap_err(),
        DecodeError::Truncated
    );
}

#[test]
fn ether_types_map() {
    assert_eq!(EtherType::from_u16(0x0800), Some(EtherType::Ipv4));
    assert_eq!(EtherType::from_u16(0x0806), Some(EtherType::Arp));
    assert_eq!(EtherType::from_u16(0x86dd), None);
}

#[test]
fn flipped_header_round_trips() {
    let f = EthernetFrameSlice::read_from_slice(&FRAME).unwrap();
    let r = build_eth(&f, true);
    assert_eq!(r[..4], [0, 0, 0, 0]);
    let back = EthernetFrameSlice::read_from_slice(&r[4..]).unwrap();
    let h = EthernetHeader::from_header_slice(&back);
    assert_eq!(h.destination, [0x02, 0x11, 0x22, 0x33, 0x44, 0x55]);
    assert_eq!(h.source, local_mac());
    assert_eq!(h.ethertype, 0x0806);
}

#[test]
fn unflipped_header_is_copied() {
    let f = EthernetFrameSlice::read_from_slice(&FRAME).unwrap();
    let r = build_eth(&f, false);
    assert_eq!(r[..4], [0, 0, 0, 0]);
    assert_eq!(r[4..], FRAME[..14]);
}
