//! Asking a host for its hardware address, and recognising its answer.
//!
//! The probe is an ARP request that names the host by both of its addresses;
//! it is answered when a reply arrives in which the host confirms them to
//! the one who asked.

use vstd::prelude::*;
use crate::headers::{
    arp_at, decode_arp, decode_eth, eth_at, eth_hdr_len, l3_offset, store_arp, store_eth,
    write_arp, write_eth, ArpHeader, EthHeader, ARP_HDR_LEN, ARP_REPLY, ARP_REQUEST,
    ETHERTYPE_ARP, ETHERTYPE_IPV4,
};
use crate::packet::in_bounds;

verus! {

/// Length of an Ethernet frame that holds an ARP header and nothing else.
pub const PROBE_LEN: usize = 42;

/// The Ethernet header of the probe that `sender_mac` sends to `target_mac`.
pub open spec fn probe_eth(sender_mac: [u8; 6], target_mac: [u8; 6]) -> EthHeader {
    EthHeader { dst_addr: target_mac, src_addr: sender_mac, ether_type: ETHERTYPE_ARP }
}

/// The ARP header of the probe in which the sender asks the target for its
/// hardware address.
pub open spec fn probe_arp(
    sender_mac: [u8; 6],
    sender_ip: u32,
    target_mac: [u8; 6],
    target_ip: u32,
) -> ArpHeader {
    ArpHeader {
        htype: 1,
        ptype: ETHERTYPE_IPV4,
        hlen: 6,
        plen: 4,
        oper: ARP_REQUEST,
        sha: sender_mac,
        spa: sender_ip,
        tha: target_mac,
        tpa: target_ip,
    }
}

/// Whether the frame `s` answers the probe: an ARP reply in which `mac`
/// says that it has `ip`, addressed to `sender_mac` at `sender_ip`.
pub open spec fn answers_probe(
    s: Seq<u8>,
    sender_mac: [u8; 6],
    sender_ip: u32,
    mac: [u8; 6],
    ip: u32,
) -> bool {
    &&& in_bounds(s.len() as int, l3_offset(), ARP_HDR_LEN as int)
    &&& eth_at(s).ether_type == ETHERTYPE_ARP
    &&& arp_at(s, l3_offset()).oper == ARP_REPLY
    &&& arp_at(s, l3_offset()).tha == sender_mac
    &&& arp_at(s, l3_offset()).tpa == sender_ip
    &&& arp_at(s, l3_offset()).sha == mac
    &&& arp_at(s, l3_offset()).spa == ip
}

/// Makes the probe: the frame in which `sender_mac` at `sender_ip` asks
/// `target_mac` at `target_ip` for its hardware address.
pub fn arp_request(sender_mac: [u8; 6], sender_ip: u32, target_mac: [u8; 6], target_ip: u32) -> (frame:
    [u8; 42])
    ensures
        frame@ == store_arp(
            store_eth(Seq::new(PROBE_LEN as nat, |i: int| 0u8), probe_eth(sender_mac, target_mac)),
            l3_offset(),
            probe_arp(sender_mac, sender_ip, target_mac, target_ip),
        ),
        eth_at(frame@) == probe_eth(sender_mac, target_mac),
        arp_at(frame@, l3_offset()) == probe_arp(sender_mac, sender_ip, target_mac, target_ip),
{
    proof {
        lemma_probe_decodes(sender_mac, sender_ip, target_mac, target_ip);
    }
    let mut frame = [0u8;42];
    assert(frame@ =~= Seq::new(PROBE_LEN as nat, |i: int| 0u8));
    let eth = EthHeader { dst_addr: target_mac, src_addr: sender_mac, ether_type: ETHERTYPE_ARP };
    let arp = ArpHeader {
        htype: 1,
        ptype: ETHERTYPE_IPV4,
        hlen: 6,
        plen: 4,
        oper: ARP_REQUEST,
        sha: sender_mac,
        spa: sender_ip,
        tha: target_mac,
        tpa: target_ip,
    };
    write_eth(&mut frame, &eth);
    write_arp(&mut frame, eth_hdr_len(), &arp);
    frame
}

/// Whether the frame answers the probe.
pub fn is_answer(frame: &[u8], sender_mac: [u8; 6], sender_ip: u32, mac: [u8; 6], ip: u32) -> (b:
    bool)
    ensures
        b == answers_probe(frame@, sender_mac, sender_ip, mac, ip),
{
    let eth = match decode_eth(frame) {
        Ok(eth) => eth,
        Err(_) => {
            return false;
        },
    };
    if eth.ether_type != ETHERTYPE_ARP {
        return false;
    }
    let arp = match decode_arp(frame, eth_hdr_len()) {
        Ok(arp) => arp,
        Err(_) => {
            return false;
        },
    };
    arp.oper == ARP_REPLY && crate::packet::mac_eq(&arp.tha, &sender_mac) && arp.tpa == sender_ip
        && crate::packet::mac_eq(&arp.sha, &mac) && arp.spa == ip
}

/// The probe decodes to the headers it was made of.
pub proof fn lemma_probe_decodes(
    sender_mac: [u8; 6],
    sender_ip: u32,
    target_mac: [u8; 6],
    target_ip: u32,
)
    ensures
        ({
            let frame = store_arp(
                store_eth(
                    Seq::new(PROBE_LEN as nat, |i: int| 0u8),
                    probe_eth(sender_mac, target_mac),
                ),
                l3_offset(),
                probe_arp(sender_mac, sender_ip, target_mac, target_ip),
            );
            &&& frame.len() == PROBE_LEN
            &&& eth_at(frame) == probe_eth(sender_mac, target_mac)
            &&& arp_at(frame, l3_offset()) == probe_arp(
                sender_mac,
                sender_ip,
                target_mac,
                target_ip,
            )
        }),
{
    let zeros = Seq::new(PROBE_LEN as nat, |i: int| 0u8);
    let with_eth = store_eth(zeros, probe_eth(sender_mac, target_mac));
    let arp = probe_arp(sender_mac, sender_ip, target_mac, target_ip);
    let frame = store_arp(with_eth, l3_offset(), arp);
    crate::headers::lemma_store_eth(zeros, probe_eth(sender_mac, target_mac));
    crate::headers::lemma_store_arp(with_eth, l3_offset(), arp);
    assert(eth_at(frame).dst_addr =~= target_mac);
    assert(eth_at(frame).src_addr =~= sender_mac);
}

} // verus!
