use anti_arp_spoof::dhcp::{
    decode_dhcp, decode_option, read_bytes, DhcpOption, DHCP_HDR_LEN, DHCP_MAGIC,
};
use anti_arp_spoof::headers::{
    decode_arp, decode_eth, decode_ipv4, decode_tcp, decode_udp, write_arp, ArpHeader, EthHeader,
    Ipv4Header, TcpHeader, UdpHeader, ARP_HDR_LEN, ETH_HDR_LEN, IPV4_HDR_LEN, TCP_HDR_LEN,
    UDP_HDR_LEN,
};
use anti_arp_spoof::packet::{
    check_bounds, mac_eq, ptr_at, read_be16, read_be32, read_mac, write_be16, write_be32,
    write_mac, PacketError,
};

fn counting(n: usize) -> Vec<u8> {
    (0..n).map(|i| i as u8).collect()
}

#[test]
fn ptr_at_inside_the_frame() {
    let frame = counting(20);
    assert_eq!(ptr_at(&frame, 0, 14), Some(&frame[0..14]));
    assert_eq!(ptr_at(&frame, 14, 6), Some(&frame[14..20]));
    assert_eq!(ptr_at(&frame, 20, 0), Some(&frame[20..20]));
    assert_eq!(ptr_at(&frame, 3, 4).unwrap(), &[3u8, 4, 5, 6][..]);
}

#[test]
fn ptr_at_past_the_end_is_refused() {
    let frame = counting(20);
    assert_eq!(ptr_at(&frame, 0, 21), None);
    assert_eq!(ptr_at(&frame, 14, 7), None);
    assert_eq!(ptr_at(&frame, 21, 0), None);
    assert_eq!(ptr_at(&[], 0, 1), None);
}

#[test]
fn ptr_at_does_not_wrap_around() {
    let frame = counting(20);
    assert_eq!(ptr_at(&frame, usize::MAX, 2), None);
    assert_eq!(ptr_at(&frame, 2, usize::MAX), None);
    assert_eq!(ptr_at(&frame, usize::MAX, usize::MAX), None);
}

#[test]
fn check_bounds_matches_the_rule() {
    let frame = counting(14);
    assert_eq!(check_bounds(&frame, 0, 14), Ok(()));
    assert_eq!(check_bounds(&frame, 14, 0), Ok(()));
    assert_eq!(check_bounds(&frame, 0, 15), Err(PacketError::OutOfBounds));
    assert_eq!(check_bounds(&frame, 13, 2), Err(PacketError::OutOfBounds));
    assert_eq!(check_bounds(&frame, usize::MAX, 1), Err(PacketError::OutOfBounds));
}

#[test]
fn reads_are_in_network_byte_order() {
    let frame = [0x12u8, 0x34, 0x56, 0x78, 0x9a, 0xbc, 0xde, 0xf0];
    assert_eq!(read_be16(&frame, 0), 0x1234);
    assert_eq!(read_be16(&frame, 1), 0x3456);
    assert_eq!(read_be16(&frame, 6), 0xdef0);
    assert_eq!(read_be32(&frame, 0), 0x1234_5678);
    assert_eq!(read_be32(&frame, 4), 0x9abc_def0);
    assert_eq!(read_mac(&frame, 1), [0x34, 0x56, 0x78, 0x9a, 0xbc, 0xde]);
    assert_eq!(read_be16(&[0xff, 0xff], 0), 0xffff);
    assert_eq!(read_be32(&[0xff, 0xff, 0xff, 0xff], 0), 0xffff_ffff);
}

#[test]
fn writes_are_in_network_byte_order_and_touch_nothing_else() {
    let mut frame = [0xeeu8; 12];
    write_be16(&mut frame, 1, 0x1234);
    assert_eq!(frame, [0xee, 0x12, 0x34, 0xee, 0xee, 0xee, 0xee, 0xee, 0xee, 0xee, 0xee, 0xee]);
    write_be32(&mut frame, 4, 0xc000_020a);
    assert_eq!(frame, [0xee, 0x12, 0x34, 0xee, 192, 0, 2, 10, 0xee, 0xee, 0xee, 0xee]);
    write_mac(&mut frame, 6, &[1, 2, 3, 4, 5, 6]);
    assert_eq!(frame, [0xee, 0x12, 0x34, 0xee, 192, 0, 1, 2, 3, 4, 5, 6]);
    assert_eq!(read_be16(&frame, 1), 0x1234);
}

#[test]
fn mac_eq_compares_all_six_bytes() {
    let a = [1u8, 2, 3, 4, 5, 6];
    assert!(mac_eq(&a, &[1, 2, 3, 4, 5, 6]));
    for i in 0..6 {
        let mut b = a;
        b[i] ^= 0x80;
        assert!(!mac_eq(&a, &b));
    }
}

#[test]
fn header_lengths() {
    assert_eq!(ETH_HDR_LEN, 14);
    assert_eq!(ARP_HDR_LEN, 28);
    assert_eq!(IPV4_HDR_LEN, 20);
    assert_eq!(UDP_HDR_LEN, 8);
    assert_eq!(TCP_HDR_LEN, 20);
    assert_eq!(DHCP_HDR_LEN, 240);
    assert_eq!(DHCP_MAGIC, 0x63825363);
}

#[test]
fn decode_eth_reads_all_fields() {
    let frame = [
        0xff, 0xff, 0xff, 0xff, 0xff, 0xff, 0x02, 0, 0, 0, 0, 1, 0x08, 0x06, 0xaa,
    ];
    assert_eq!(
        decode_eth(&frame),
        Ok(EthHeader {
            dst_addr: [0xff; 6],
            src_addr: [0x02, 0, 0, 0, 0, 1],
            ether_type: 0x0806,
        })
    );
}

#[test]
fn decode_eth_needs_fourteen_bytes() {
    assert_eq!(decode_eth(&counting(13)), Err(PacketError::OutOfBounds));
    assert_eq!(decode_eth(&[]), Err(PacketError::OutOfBounds));
    assert!(decode_eth(&counting(14)).is_ok());
}

#[test]
fn decode_arp_reads_all_fields() {
    let mut frame = vec![0u8; 14];
    frame.extend_from_slice(&[
        0x00, 0x01, 0x08, 0x00, 6, 4, 0x00, 0x02, // htype, ptype, hlen, plen, oper
        0x02, 0, 0, 0, 0, 1, 192, 0, 2, 10, // sha, spa
        0x02, 0, 0, 0, 0, 2, 192, 0, 2, 1, // tha, tpa
    ]);
    assert_eq!(
        decode_arp(&frame, 14),
        Ok(ArpHeader {
            htype: 1,
            ptype: 0x0800,
            hlen: 6,
            plen: 4,
            oper: 2,
            sha: [0x02, 0, 0, 0, 0, 1],
            spa: 0xc000_020a,
            tha: [0x02, 0, 0, 0, 0, 2],
            tpa: 0xc000_0201,
        })
    );
    assert_eq!(decode_arp(&frame[..41], 14), Err(PacketError::OutOfBounds));
    assert_eq!(decode_arp(&frame, 15), Err(PacketError::OutOfBounds));
}

#[test]
fn write_arp_round_trips() {
    let header = ArpHeader {
        htype: 1,
        ptype: 0x0800,
        hlen: 6,
        plen: 4,
        oper: 1,
        sha: [1, 2, 3, 4, 5, 6],
        spa: 0x0a2a_0072,
        tha: [7, 8, 9, 10, 11, 12],
        tpa: 0xc000_0263,
    };
    let mut frame = vec![0xeeu8; 50];
    write_arp(&mut frame, 14, &header);
    assert_eq!(decode_arp(&frame, 14), Ok(header));
    assert_eq!(&frame[..14], &[0xee; 14]);
    assert_eq!(&frame[42..], &[0xee; 8]);
    assert_eq!(
        &frame[14..42],
        &[
            0, 1, 8, 0, 6, 4, 0, 1, 1, 2, 3, 4, 5, 6, 10, 42, 0, 114, 7, 8, 9, 10, 11, 12, 192, 0,
            2, 99
        ]
    );
}

#[test]
fn decode_ipv4_reads_all_fields() {
    let mut frame = vec![0u8; 14];
    frame.extend_from_slice(&[
        0x45, 0x10, 0x01, 0x48, 0xab, 0xcd, 0x40, 0x00, 64, 17, 0x12, 0x34, 10, 42, 0, 1, 192, 0,
        2, 10,
    ]);
    assert_eq!(
        decode_ipv4(&frame, 14),
        Ok(Ipv4Header {
            vihl: 0x45,
            tos: 0x10,
            tot_len: 0x0148,
            id: 0xabcd,
            frags: 0x4000,
            ttl: 64,
            proto: 17,
            check: 0x1234,
            src_addr: 0x0a2a_0001,
            dst_addr: 0xc000_020a,
        })
    );
    assert_eq!(decode_ipv4(&frame[..33], 14), Err(PacketError::OutOfBounds));
}

#[test]
fn decode_udp_and_tcp_read_all_fields() {
    let udp = [0x00u8, 0x43, 0x00, 0x44, 0x01, 0x34, 0xbe, 0xef];
    assert_eq!(
        decode_udp(&udp, 0),
        Ok(UdpHeader { source: 67, dest: 68, len: 0x0134, check: 0xbeef })
    );
    assert_eq!(decode_udp(&udp[..7], 0), Err(PacketError::OutOfBounds));
    let tcp = [
        0xc3u8, 0x50, 0x01, 0xbb, 0, 0, 0, 1, 0, 0, 0, 2, 0x50, 0x12, 0xff, 0xff, 0xab, 0xcd, 0,
        5,
    ];
    assert_eq!(
        decode_tcp(&tcp, 0),
        Ok(TcpHeader {
            source: 50000,
            dest: 443,
            seq: 1,
            ack_seq: 2,
            flags: 0x5012,
            window: 0xffff,
            check: 0xabcd,
            urg_ptr: 5,
        })
    );
    assert_eq!(decode_tcp(&tcp[..19], 0), Err(PacketError::OutOfBounds));
}

#[test]
fn decode_dhcp_reads_all_fields() {
    let mut msg = counting(240);
    msg[236..240].copy_from_slice(&[0x63, 0x82, 0x53, 0x63]);
    let mut frame = vec![0xeeu8; 2];
    frame.extend_from_slice(&msg);
    let header = decode_dhcp(&frame, 2).unwrap();
    assert_eq!(header.op, 0);
    assert_eq!(header.htype, 1);
    assert_eq!(header.hlen, 2);
    assert_eq!(header.hops, 3);
    assert_eq!(header.xid, 0x0405_0607);
    assert_eq!(header.secs, 0x0809);
    assert_eq!(header.flags, 0x0a0b);
    assert_eq!(header.ciaddr, 0x0c0d_0e0f);
    assert_eq!(header.yiaddr, 0x1011_1213);
    assert_eq!(header.siaddr, 0x1415_1617);
    assert_eq!(header.giaddr, 0x1819_1a1b);
    assert_eq!(&header.chaddr[..], &msg[28..44]);
    assert_eq!(&header.sname[..], &msg[44..108]);
    assert_eq!(&header.file[..], &msg[108..236]);
    assert_eq!(header.magic, DHCP_MAGIC);
    assert_eq!(header.client_mac(), [28, 29, 30, 31, 32, 33]);
    assert_eq!(decode_dhcp(&frame[..241], 2).err(), Some(PacketError::OutOfBounds));
    assert_eq!(decode_dhcp(&frame, 3).err(), Some(PacketError::OutOfBounds));
}

#[test]
fn decode_option_and_ack() {
    assert_eq!(
        decode_option(&[0x35, 0x01, 0x05, 0xff], 0),
        Ok(DhcpOption { code: 0x35, len: 1, value: 5 })
    );
    assert!(DhcpOption { code: 0x35, len: 1, value: 5 }.is_ack());
    assert!(!DhcpOption { code: 0x35, len: 1, value: 2 }.is_ack());
    assert!(!DhcpOption { code: 0x35, len: 2, value: 5 }.is_ack());
    assert!(!DhcpOption { code: 0x36, len: 1, value: 5 }.is_ack());
    assert_eq!(decode_option(&[0x35, 0x01], 0), Err(PacketError::OutOfBounds));
    assert_eq!(decode_option(&[0x35, 0x01, 0x05], 1), Err(PacketError::OutOfBounds));
}

#[test]
fn read_bytes_copies_the_window() {
    let frame = counting(10);
    let window: [u8; 4] = read_bytes::<4>(&frame, 3);
    assert_eq!(window, [3, 4, 5, 6]);
    let none: [u8; 0] = read_bytes::<0>(&frame, 10);
    assert_eq!(none, []);
}
