use anti_arp_spoof::bindings::{ipmac_get, ipmac_insert, BindingTable, IpMac, KeyValue};
use anti_arp_spoof::guard::fullmrs_xdp;
use anti_arp_spoof::packet::{Disposition, PacketError};
use anti_arp_spoof::snoop::{fullmrs_tc, recognize_dhcp_ack, try_tc_ringbuf};

const M1: [u8; 6] = [0x02, 0x00, 0x00, 0x00, 0x00, 0x01];
const M2: [u8; 6] = [0x02, 0x00, 0x00, 0x00, 0x00, 0x02];
const SERVER: [u8; 6] = [0x02, 0x00, 0x00, 0x00, 0x00, 0xfe];
const LEASED: u32 = 0xc000_020a; // 192.0.2.10

/// A DHCP message from server port to client port that acknowledges the
/// lease of `yiaddr` to `chaddr`.
fn dhcp_ack(chaddr: [u8; 6], yiaddr: u32) -> Vec<u8> {
    let mut f = Vec::new();
    // Ethernet
    f.extend_from_slice(&chaddr);
    f.extend_from_slice(&SERVER);
    f.extend_from_slice(&[0x08, 0x00]);
    // IPv4
    f.extend_from_slice(&[0x45, 0x00, 0x01, 0x10, 0x00, 0x01, 0x00, 0x00, 64, 17, 0x00, 0x00]);
    f.extend_from_slice(&[192, 0, 2, 1]);
    f.extend_from_slice(&yiaddr.to_be_bytes());
    // UDP
    f.extend_from_slice(&[0x00, 67, 0x00, 68, 0x00, 0xfc, 0x00, 0x00]);
    // BOOTP
    f.extend_from_slice(&[2, 1, 6, 0]);
    f.extend_from_slice(&[0xde, 0xad, 0xbe, 0xef]); // xid
    f.extend_from_slice(&[0, 0, 0, 0]); // secs, flags
    f.extend_from_slice(&[0, 0, 0, 0]); // ciaddr
    f.extend_from_slice(&yiaddr.to_be_bytes()); // yiaddr
    f.extend_from_slice(&[192, 0, 2, 1]); // siaddr
    f.extend_from_slice(&[0, 0, 0, 0]); // giaddr
    f.extend_from_slice(&chaddr);
    f.extend_from_slice(&[0u8; 10]);
    f.extend_from_slice(&[0u8; 64]);
    f.extend_from_slice(&[0u8; 128]);
    f.extend_from_slice(&[0x63, 0x82, 0x53, 0x63]);
    // Options
    f.extend_from_slice(&[0x35, 0x01, 0x05, 0xff]);
    assert_eq!(f.len(), 14 + 20 + 8 + 240 + 4);
    f
}

#[test]
fn dhcp_ack_is_recognized() {
    let frame = dhcp_ack(M1, LEASED);
    assert_eq!(recognize_dhcp_ack(&frame), Ok(Some(IpMac { mac: M1, ip: LEASED })));
}

#[test]
fn dhcp_ack_produces_exactly_one_binding_and_replay_none() {
    let mut table = BindingTable::new(100);
    let frame = dhcp_ack(M1, LEASED);
    assert_eq!(
        try_tc_ringbuf(&mut table, &frame),
        Ok(Some(KeyValue { key: M1, value: LEASED }))
    );
    assert_eq!(table.len(), 1);
    assert_eq!(table.entry(0), Some(IpMac { mac: M1, ip: LEASED }));
    assert_eq!(ipmac_get(&table, M1), Some(LEASED));
    // The same packet again.
    assert_eq!(try_tc_ringbuf(&mut table, &frame), Ok(None));
    assert_eq!(table.len(), 1);
    assert_eq!(table.entry(0), Some(IpMac { mac: M1, ip: LEASED }));
}

#[test]
fn lease_for_bound_mac_is_not_an_update() {
    let mut table = BindingTable::new(100);
    try_tc_ringbuf(&mut table, &dhcp_ack(M1, LEASED)).unwrap();
    assert_eq!(try_tc_ringbuf(&mut table, &dhcp_ack(M1, 0xc000_0263)), Ok(None));
    assert_eq!(ipmac_get(&table, M1), Some(LEASED));
    assert_eq!(table.len(), 1);
}

#[test]
fn leases_are_logged_in_order_of_discovery() {
    let mut table = BindingTable::new(100);
    try_tc_ringbuf(&mut table, &dhcp_ack(M2, 0xc000_020b)).unwrap();
    try_tc_ringbuf(&mut table, &dhcp_ack(M1, LEASED)).unwrap();
    assert_eq!(table.entry(0), Some(IpMac { mac: M2, ip: 0xc000_020b }));
    assert_eq!(table.entry(1), Some(IpMac { mac: M1, ip: LEASED }));
}

#[test]
fn full_table_learns_nothing_and_reports_nothing() {
    let mut table = BindingTable::new(1);
    ipmac_insert(&mut table, M2, 7).unwrap();
    assert_eq!(try_tc_ringbuf(&mut table, &dhcp_ack(M1, LEASED)), Ok(None));
    assert_eq!(table.len(), 1);
    assert_eq!(ipmac_get(&table, M1), None);
    assert_eq!(ipmac_get(&table, M2), Some(7));
}

#[test]
fn hook_always_passes() {
    let mut table = BindingTable::new(100);
    let frame = dhcp_ack(M1, LEASED);
    assert_eq!(
        fullmrs_tc(&mut table, &frame),
        (Disposition::Pass, Some(KeyValue { key: M1, value: LEASED }))
    );
    assert_eq!(fullmrs_tc(&mut table, &frame), (Disposition::Pass, None));
    assert_eq!(fullmrs_tc(&mut table, &frame[..100]), (Disposition::Pass, None));
    assert_eq!(fullmrs_tc(&mut table, &[]), (Disposition::Pass, None));
    assert_eq!(table.len(), 1);
}

#[test]
fn not_ipv4_is_not_of_interest() {
    let mut frame = dhcp_ack(M1, LEASED);
    frame[12] = 0x86;
    frame[13] = 0xdd;
    assert_eq!(recognize_dhcp_ack(&frame), Ok(None));
}

#[test]
fn not_udp_is_not_of_interest() {
    let mut frame = dhcp_ack(M1, LEASED);
    frame[23] = 6;
    assert_eq!(recognize_dhcp_ack(&frame), Ok(None));
}

#[test]
fn other_ports_are_not_of_interest() {
    let mut from_client = dhcp_ack(M1, LEASED);
    from_client[35] = 68;
    from_client[37] = 67;
    assert_eq!(recognize_dhcp_ack(&from_client), Ok(None));
    let mut wrong_source = dhcp_ack(M1, LEASED);
    wrong_source[34] = 1;
    assert_eq!(recognize_dhcp_ack(&wrong_source), Ok(None));
    let mut wrong_dest = dhcp_ack(M1, LEASED);
    wrong_dest[37] = 69;
    assert_eq!(recognize_dhcp_ack(&wrong_dest), Ok(None));
}

#[test]
fn wrong_magic_is_not_of_interest() {
    for i in 0..4 {
        let mut frame = dhcp_ack(M1, LEASED);
        frame[278 + i] ^= 1;
        assert_eq!(recognize_dhcp_ack(&frame), Ok(None));
    }
}

#[test]
fn other_first_option_is_not_of_interest() {
    // An offer, not an acknowledgement.
    let mut offer = dhcp_ack(M1, LEASED);
    offer[284] = 2;
    assert_eq!(recognize_dhcp_ack(&offer), Ok(None));
    // Another option first.
    let mut other = dhcp_ack(M1, LEASED);
    other[282] = 0x36;
    assert_eq!(recognize_dhcp_ack(&other), Ok(None));
    // A message type with another length.
    let mut long = dhcp_ack(M1, LEASED);
    long[283] = 2;
    assert_eq!(recognize_dhcp_ack(&long), Ok(None));
    let mut table = BindingTable::new(100);
    assert_eq!(try_tc_ringbuf(&mut table, &offer), Ok(None));
    assert_eq!(table.len(), 0);
}

#[test]
fn frame_cut_short_is_out_of_bounds_at_each_stage() {
    let frame = dhcp_ack(M1, LEASED);
    // One byte short of: Ethernet, IPv4, UDP, DHCP, the option.
    for cut in [13, 33, 41, 281, 284] {
        assert_eq!(recognize_dhcp_ack(&frame[..cut]), Err(PacketError::OutOfBounds));
        let mut table = BindingTable::new(100);
        assert_eq!(try_tc_ringbuf(&mut table, &frame[..cut]), Err(PacketError::OutOfBounds));
        assert_eq!(table.len(), 0);
    }
    // Just long enough.
    assert_eq!(recognize_dhcp_ack(&frame[..285]), Ok(Some(IpMac { mac: M1, ip: LEASED })));
}

#[test]
fn short_frame_of_another_protocol_is_not_an_error() {
    let mut frame = dhcp_ack(M1, LEASED);
    frame[12] = 0x08;
    frame[13] = 0x06;
    assert_eq!(recognize_dhcp_ack(&frame[..14]), Ok(None));
    let mut tcp = dhcp_ack(M1, LEASED);
    tcp[23] = 6;
    assert_eq!(recognize_dhcp_ack(&tcp[..34]), Ok(None));
}

#[test]
fn unrecognized_ethertype_passes_snooper_and_guard_without_mutation() {
    let mut table = BindingTable::new(100);
    ipmac_insert(&mut table, M2, 7).unwrap();
    for ethertype in [[0x86u8, 0xdd], [0x88, 0xcc], [0x81, 0x00], [0x00, 0x00], [0xff, 0xff]] {
        let mut frame = dhcp_ack(M1, LEASED);
        frame[12] = ethertype[0];
        frame[13] = ethertype[1];
        let before = frame.clone();
        assert_eq!(fullmrs_tc(&mut table, &frame), (Disposition::Pass, None));
        assert_eq!(fullmrs_xdp(&table, &frame), Disposition::Pass);
        assert_eq!(frame, before);
        assert_eq!(table.len(), 1);
        assert_eq!(table.entry(0), Some(IpMac { mac: M2, ip: 7 }));
        // Also when nothing follows the Ethernet header.
        assert_eq!(fullmrs_tc(&mut table, &frame[..14]), (Disposition::Pass, None));
        assert_eq!(fullmrs_xdp(&table, &frame[..14]), Disposition::Pass);
    }
}

#[test]
fn lease_anchors_later_replies() {
    fn reply(sha: [u8; 6], spa: u32) -> Vec<u8> {
        let mut f = Vec::new();
        f.extend_from_slice(&[0xff; 6]);
        f.extend_from_slice(&sha);
        f.extend_from_slice(&[0x08, 0x06, 0x00, 0x01, 0x08, 0x00, 6, 4, 0x00, 0x02]);
        f.extend_from_slice(&sha);
        f.extend_from_slice(&spa.to_be_bytes());
        f.extend_from_slice(&[0xff; 6]);
        f.extend_from_slice(&[192, 0, 2, 1]);
        f
    }
    let mut table = BindingTable::new(100);
    assert_eq!(fullmrs_xdp(&table, &reply(M1, LEASED)), Disposition::Drop);
    fullmrs_tc(&mut table, &dhcp_ack(M1, LEASED));
    assert_eq!(fullmrs_xdp(&table, &reply(M1, LEASED)), Disposition::Pass);
    assert_eq!(fullmrs_xdp(&table, &reply(M1, LEASED + 1)), Disposition::Drop);
    assert_eq!(fullmrs_xdp(&table, &reply(M2, LEASED)), Disposition::Drop);
}
