use pct::arp::{
    lookup, read_packet, reply, update_table, ArpPacket, ArpPacketSlice, CacheUpdate,
    TranslationTable,
};
use pct::eth::{nic_init, IP, LOOPBACK};
use pct::wire::DecodeError;

const LOCAL_MAC: [u8; 6] = [0xbe, 0xe9, 0x7d, 0x63, 0x31, 0xbc];
const PEER_MAC: [u8; 6] = [0x02, 0x11, 0x22, 0x33, 0x44, 0x55];

fn request(opcode: u8, target_ip: [u8; 4]) -> Vec<u8> {
    let mut v = vec![0x00, 0x01, 0x08, 0x00, 0x06, 0x04, 0x00, opcode];
    v.extend_from_slice(&PEER_MAC);
    v.extend_from_slice(&[10, 0, 0, 1]);
    v.extend_from_slice(&[0; 6]);
    v.extend_from_slice(&target_ip);
    v
}

#[test]
fn update_adds_then_keeps_then_supersedes() {
    let mut t = TranslationTable::new();
    assert_eq!(update_table(&mut t, PEER_MAC, 7), CacheUpdate::Added);
    assert_eq!(update_table(&mut t, PEER_MAC, 7), CacheUpdate::Unchanged);
    assert_eq!(update_table(&mut t, LOCAL_MAC, 7), CacheUpdate::Changed);
    assert_eq!(t.len(), 1);
}

#[test]
fn merge_twice_equals_merge_once() {
    let mut once = TranslationTable::new();
    once.insert(1, LOCAL_MAC);
    let mut twice = once.clone();
    update_table(&mut once, PEER_MAC, 9);
    update_table(&mut twice, PEER_MAC, 9);
    update_table(&mut twice, PEER_MAC, 9);
    assert_eq!(once, twice);
}

#[test]
fn merge_supersedes_old_mac() {
    let mut t = TranslationTable::new();
    update_table(&mut t, LOCAL_MAC, 9);
    update_table(&mut t, PEER_MAC, 9);
    assert_eq!(lookup(&t, 9), Some(PEER_MAC));
    assert_ne!(lookup(&t, 9), Some(LOCAL_MAC));
    assert_eq!(lookup(&t, 10), None);
}

#[test]
fn nic_init_seeds_local_and_loopback() {
    let mut t = TranslationTable::new();
    nic_init(&mut t);
    assert_eq!(lookup(&t, IP), Some(LOCAL_MAC));
    assert_eq!(lookup(&t, LOOPBACK), Some([0u8; 6]));
    assert_eq!(t.len(), 2);
}

#[test]
fn request_for_local_address_gets_reply() {
    let mut t = TranslationTable::new();
    let req = request(1, [10, 0, 0, 2]);
    let r = read_packet(&req, &mut t).unwrap().unwrap();
    let s = ArpPacketSlice::read_from_slice(&r).unwrap();
    let p = ArpPacket::from_slice(&s);
    assert_eq!(p.opcode, 2);
    assert_eq!(p.hardware_type, 1);
    assert_eq!(p.proto_type, 0x0800);
    assert_eq!(p.hardware_size, 6);
    assert_eq!(p.proto_size, 4);
    assert_eq!(p.ipv4_data.source_mac, LOCAL_MAC);
    assert_eq!(p.ipv4_data.source_ip, IP);
    assert_eq!(p.ipv4_data.destination_mac, PEER_MAC);
    assert_eq!(p.ipv4_data.destination_ip, 0x0a000001);
    assert_eq!(lookup(&t, 0x0a000001), Some(PEER_MAC));
}

#[test]
fn request_for_other_address_is_merged_without_reply() {
    let mut t = TranslationTable::new();
    let req = request(1, [10, 0, 0, 9]);
    assert_eq!(read_packet(&req, &mut t), Ok(None));
    assert_eq!(lookup(&t, 0x0a000001), Some(PEER_MAC));
}

#[test]
fn reply_is_merged_without_reply() {
    let mut t = TranslationTable::new();
    let rep = request(2, [10, 0, 0, 2]);
    assert_eq!(read_packet(&rep, &mut t), Ok(None));
    assert_eq!(lookup(&t, 0x0a000001), Some(PEER_MAC));
}

#[test]
fn unsupported_opcode_is_ignored() {
    let mut t = TranslationTable::new();
    let rarp = request(3, [10, 0, 0, 2]);
    assert_eq!(read_packet(&rarp, &mut t), Ok(None));
}

#[test]
fn short_message_fails_and_leaves_cache() {
    let mut t = TranslationTable::new();
    let req = request(1, [10, 0, 0, 2]);
    assert_eq!(read_packet(&req[..27], &mut t), Err(DecodeError::Truncated));
    assert!(t.is_empty());
}

#[test]
fn reply_bytes_are_exact() {
    let req = request(1, [10, 0, 0, 2]);
    let s = ArpPacketSlice::read_from_slice(&req).unwrap();
    assert_eq!(s.opcode(), 1);
    assert_eq!(s.source_mac(), PEER_MAC);
    assert_eq!(s.destination_mac(), [0u8; 6]);
    let r = reply(&s);
    let mut expected = vec![0x00, 0x01, 0x08, 0x00, 0x06, 0x04, 0x00, 0x02];
    expected.extend_from_slice(&LOCAL_MAC);
    expected.extend_from_slice(&[10, 0, 0, 2]);
    expected.extend_from_slice(&PEER_MAC);
    expected.extend_from_slice(&[10, 0, 0, 1]);
    assert_eq!(r.to_vec(), expected);
}
