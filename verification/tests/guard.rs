use anti_arp_spoof::bindings::{ipmac_insert, BindingTable};
use anti_arp_spoof::guard::{fullmrs_xdp, try_fullmrs, ArpVerdict};
use anti_arp_spoof::packet::{Disposition, PacketError};

const M1: [u8; 6] = [0x02, 0x00, 0x00, 0x00, 0x00, 0x01];
const M2: [u8; 6] = [0x02, 0x00, 0x00, 0x00, 0x00, 0x02];
const VICTIM: [u8; 6] = [0x02, 0x00, 0x00, 0x00, 0x00, 0x09];

fn ip(a: u8, b: u8, c: u8, d: u8) -> u32 {
    u32::from_be_bytes([a, b, c, d])
}

fn arp(oper: u16, sha: [u8; 6], spa: u32, tha: [u8; 6], tpa: u32) -> Vec<u8> {
    let mut f = Vec::new();
    f.extend_from_slice(&tha);
    f.extend_from_slice(&sha);
    f.extend_from_slice(&[0x08, 0x06]);
    f.extend_from_slice(&[0x00, 0x01, 0x08, 0x00, 6, 4]);
    f.extend_from_slice(&oper.to_be_bytes());
    f.extend_from_slice(&sha);
    f.extend_from_slice(&spa.to_be_bytes());
    f.extend_from_slice(&tha);
    f.extend_from_slice(&tpa.to_be_bytes());
    assert_eq!(f.len(), 42);
    f
}

fn table_with_m1() -> BindingTable {
    let mut table = BindingTable::new(100);
    ipmac_insert(&mut table, M1, ip(192, 0, 2, 10)).unwrap();
    table
}

#[test]
fn reply_with_bound_address_passes() {
    let table = table_with_m1();
    let reply = arp(2, M1, ip(192, 0, 2, 10), VICTIM, ip(192, 0, 2, 1));
    assert_eq!(try_fullmrs(&table, &reply), Ok(ArpVerdict::Verified));
    assert_eq!(fullmrs_xdp(&table, &reply), Disposition::Pass);
}

#[test]
fn reply_with_another_address_is_dropped() {
    let table = table_with_m1();
    let reply = arp(2, M1, ip(192, 0, 2, 99), VICTIM, ip(192, 0, 2, 1));
    assert_eq!(try_fullmrs(&table, &reply), Ok(ArpVerdict::Spoofed));
    assert_eq!(fullmrs_xdp(&table, &reply), Disposition::Drop);
}

#[test]
fn reply_from_unknown_sender_is_dropped() {
    let table = table_with_m1();
    let reply = arp(2, M2, ip(192, 0, 2, 10), VICTIM, ip(192, 0, 2, 1));
    assert_eq!(try_fullmrs(&table, &reply), Ok(ArpVerdict::UnknownSender));
    assert_eq!(fullmrs_xdp(&table, &reply), Disposition::Drop);
    let empty = BindingTable::new(100);
    let honest = arp(2, M1, ip(192, 0, 2, 10), VICTIM, ip(192, 0, 2, 1));
    assert_eq!(fullmrs_xdp(&empty, &honest), Disposition::Drop);
}

#[test]
fn sender_is_taken_from_the_arp_header_not_the_ethernet_header() {
    let table = table_with_m1();
    // M2 sends the frame but claims in ARP to be M1 with M1's address.
    let mut reply = arp(2, M1, ip(192, 0, 2, 10), VICTIM, ip(192, 0, 2, 1));
    reply[6..12].copy_from_slice(&M2);
    assert_eq!(try_fullmrs(&table, &reply), Ok(ArpVerdict::Verified));
}

#[test]
fn requests_pass() {
    let table = table_with_m1();
    let from_known = arp(1, M1, ip(192, 0, 2, 10), [0; 6], ip(192, 0, 2, 1));
    let from_unknown = arp(1, M2, ip(192, 0, 2, 77), [0; 6], ip(192, 0, 2, 1));
    assert_eq!(try_fullmrs(&table, &from_known), Ok(ArpVerdict::Request));
    assert_eq!(try_fullmrs(&table, &from_unknown), Ok(ArpVerdict::Request));
    assert_eq!(fullmrs_xdp(&table, &from_unknown), Disposition::Pass);
}

#[test]
fn other_operations_are_dropped() {
    let table = table_with_m1();
    for oper in [0u16, 3, 4, 0x0100, 0x0200, 0xffff] {
        let frame = arp(oper, M1, ip(192, 0, 2, 10), VICTIM, ip(192, 0, 2, 1));
        assert_eq!(try_fullmrs(&table, &frame), Ok(ArpVerdict::BadOperation));
        assert_eq!(fullmrs_xdp(&table, &frame), Disposition::Drop);
    }
}

#[test]
fn arp_for_other_protocol_addresses_is_dropped() {
    let table = table_with_m1();
    let mut frame = arp(2, M1, ip(192, 0, 2, 10), VICTIM, ip(192, 0, 2, 1));
    frame[19] = 16;
    assert_eq!(try_fullmrs(&table, &frame), Ok(ArpVerdict::NotIpv4));
    assert_eq!(fullmrs_xdp(&table, &frame), Disposition::Drop);
    let mut request = arp(1, M1, ip(192, 0, 2, 10), VICTIM, ip(192, 0, 2, 1));
    request[19] = 0;
    assert_eq!(fullmrs_xdp(&table, &request), Disposition::Drop);
}

#[test]
fn other_frames_pass() {
    let table = table_with_m1();
    let mut ipv4 = arp(2, M2, ip(192, 0, 2, 99), VICTIM, ip(192, 0, 2, 1));
    ipv4[12] = 0x08;
    ipv4[13] = 0x00;
    assert_eq!(try_fullmrs(&table, &ipv4), Ok(ArpVerdict::NotArp));
    assert_eq!(fullmrs_xdp(&table, &ipv4), Disposition::Pass);
    assert_eq!(fullmrs_xdp(&table, &ipv4[..14]), Disposition::Pass);
}

#[test]
fn frame_cut_short_is_dropped() {
    let table = table_with_m1();
    let reply = arp(2, M1, ip(192, 0, 2, 10), VICTIM, ip(192, 0, 2, 1));
    assert_eq!(try_fullmrs(&table, &reply[..41]), Err(PacketError::OutOfBounds));
    assert_eq!(fullmrs_xdp(&table, &reply[..41]), Disposition::Drop);
    assert_eq!(try_fullmrs(&table, &reply[..13]), Err(PacketError::OutOfBounds));
    assert_eq!(fullmrs_xdp(&table, &reply[..13]), Disposition::Drop);
    assert_eq!(fullmrs_xdp(&table, &[]), Disposition::Drop);
    // Trailing bytes do no harm.
    let mut padded = reply.clone();
    padded.extend_from_slice(&[0u8; 18]);
    assert_eq!(fullmrs_xdp(&table, &padded), Disposition::Pass);
}

#[test]
fn verdicts_map_to_dispositions() {
    assert_eq!(ArpVerdict::NotArp.disposition(), Disposition::Pass);
    assert_eq!(ArpVerdict::Request.disposition(), Disposition::Pass);
    assert_eq!(ArpVerdict::Verified.disposition(), Disposition::Pass);
    assert_eq!(ArpVerdict::NotIpv4.disposition(), Disposition::Drop);
    assert_eq!(ArpVerdict::BadOperation.disposition(), Disposition::Drop);
    assert_eq!(ArpVerdict::UnknownSender.disposition(), Disposition::Drop);
    assert_eq!(ArpVerdict::Spoofed.disposition(), Disposition::Drop);
}

#[test]
fn binding_learned_later_lets_the_reply_pass() {
    let mut table = BindingTable::new(100);
    let reply = arp(2, M2, ip(192, 0, 2, 20), VICTIM, ip(192, 0, 2, 1));
    assert_eq!(fullmrs_xdp(&table, &reply), Disposition::Drop);
    ipmac_insert(&mut table, M2, ip(192, 0, 2, 20)).unwrap();
    assert_eq!(fullmrs_xdp(&table, &reply), Disposition::Pass);
}
