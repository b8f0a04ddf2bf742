//! The DHCP snooper: learns bindings from the leases it sees go by.
//!
//! Each frame takes the snooper through a short state machine. It starts
//! awaiting Ethernet, then awaits IPv4 in it, then UDP from the server port
//! to the client port, then a DHCP message with the magic cookie, then a
//! first option that says "acknowledge". A frame that does not bring what
//! the state awaits is simply not of interest, and the machine stops there.
//! A frame that takes it all the way binds the client's hardware address to
//! the address assigned, if that hardware address has no binding yet and the
//! table has room.
//!
//! The snooper only watches: whatever it finds, the frame passes.

use vstd::prelude::*;
use crate::bindings::{
    insert, ipmac_exists, ipmac_insert, is_bound, BindingTable, IpMac, KeyValue,
};
use crate::dhcp::{
    decode_dhcp, decode_option, option_at, DHCP_CLIENT_PORT, DHCP_HDR_LEN, DHCP_MAGIC,
    DHCP_OPTION_LEN, DHCP_SERVER_PORT,
};
use crate::headers::{
    decode_eth, decode_ipv4, decode_udp, eth_at, eth_hdr_len, ipv4_at, ipv4_hdr_len, l3_offset,
    l4_offset, udp_at, udp_hdr_len, udp_payload_offset, ETHERTYPE_IPV4, ETH_HDR_LEN,
    IPPROTO_UDP, IPV4_HDR_LEN, UDP_HDR_LEN,
};
use crate::packet::{be32, in_bounds, mac_at, Disposition, PacketError};

verus! {

/// Offset of the first DHCP option in a frame.
pub open spec fn dhcp_options_offset() -> int {
    udp_payload_offset() + DHCP_HDR_LEN as int
}

/// The binding that a frame announces.
///
/// `Ok(Some(b))` for a DHCP acknowledgement that assigns `b.ip` to `b.mac`,
/// `Ok(None)` for a frame that is something else, `Err` for a frame that ends
/// inside a header that had to be read to tell.
pub open spec fn dhcp_ack(s: Seq<u8>) -> Result<Option<IpMac>, PacketError> {
    let n = s.len() as int;
    if !in_bounds(n, 0, ETH_HDR_LEN as int) {
        Err(PacketError::OutOfBounds)
    } else if eth_at(s).ether_type != ETHERTYPE_IPV4 {
        Ok(None)
    } else if !in_bounds(n, l3_offset(), IPV4_HDR_LEN as int) {
        Err(PacketError::OutOfBounds)
    } else if ipv4_at(s, l3_offset()).proto != IPPROTO_UDP {
        Ok(None)
    } else if !in_bounds(n, l4_offset(), UDP_HDR_LEN as int) {
        Err(PacketError::OutOfBounds)
    } else if udp_at(s, l4_offset()).source != DHCP_SERVER_PORT || udp_at(s, l4_offset()).dest
        != DHCP_CLIENT_PORT {
        Ok(None)
    } else if !in_bounds(n, udp_payload_offset(), DHCP_HDR_LEN as int) {
        Err(PacketError::OutOfBounds)
    } else if be32(s, udp_payload_offset() + 236) != DHCP_MAGIC {
        Ok(None)
    } else if !in_bounds(n, dhcp_options_offset(), DHCP_OPTION_LEN as int) {
        Err(PacketError::OutOfBounds)
    } else if !option_at(s, dhcp_options_offset()).is_ack_spec() {
        Ok(None)
    } else {
        Ok(
            Some(
                IpMac {
                    mac: mac_at(s, udp_payload_offset() + 28),
                    ip: be32(s, udp_payload_offset() + 16),
                },
            ),
        )
    }
}

/// Whether the frame `s` teaches a table that holds `log` a new binding.
pub open spec fn learns(log: Seq<IpMac>, capacity: nat, s: Seq<u8>) -> bool {
    dhcp_ack(s) matches Ok(Some(b)) && !is_bound(log, b.mac) && log.len() < capacity
}

/// The log after the snooper has seen the frame `s`.
pub open spec fn snoop_log(log: Seq<IpMac>, capacity: nat, s: Seq<u8>) -> Seq<IpMac> {
    if learns(log, capacity, s) {
        log.push(dhcp_ack(s)->Ok_0->Some_0)
    } else {
        log
    }
}

/// What the snooper reports of the frame `s`: the binding that it has newly
/// learned, nothing, or that the frame was cut short.
pub open spec fn snoop_report(log: Seq<IpMac>, capacity: nat, s: Seq<u8>) -> Result<
    Option<KeyValue>,
    PacketError,
> {
    match dhcp_ack(s) {
        Err(e) => Err(e),
        Ok(None) => Ok(None),
        Ok(Some(b)) => if learns(log, capacity, s) {
            Ok(Some(KeyValue { key: b.mac, value: b.ip }))
        } else {
            Ok(None)
        },
    }
}

/// Follows a frame through the chain of checks and says which binding it
/// announces, if any.
pub fn recognize_dhcp_ack(frame: &[u8]) -> (r: Result<Option<IpMac>, PacketError>)
    ensures
        r == dhcp_ack(frame@),
{
    let ethhdr = decode_eth(frame)?;
    if ethhdr.ether_type != ETHERTYPE_IPV4 {
        return Ok(None);
    }
    let ip_off = eth_hdr_len();
    let ipv4hdr = decode_ipv4(frame, ip_off)?;
    if ipv4hdr.proto != IPPROTO_UDP {
        return Ok(None);
    }
    let udp_off = ip_off + ipv4_hdr_len();
    let udphdr = decode_udp(frame, udp_off)?;
    if udphdr.source != DHCP_SERVER_PORT || udphdr.dest != DHCP_CLIENT_PORT {
        return Ok(None);
    }
    let dhcp_off = udp_off + udp_hdr_len();
    let dhcphdr = decode_dhcp(frame, dhcp_off)?;
    if dhcphdr.magic != DHCP_MAGIC {
        return Ok(None);
    }
    let first_opt = decode_option(frame, dhcp_off + DHCP_HDR_LEN)?;
    if !first_opt.is_ack() {
        return Ok(None);
    }
    let mac = dhcphdr.client_mac();
    assert(mac =~= mac_at(frame@, udp_payload_offset() + 28));
    Ok(Some(IpMac { mac, ip: dhcphdr.yiaddr }))
}

/// Shows a frame to the snooper.
///
/// The binding that a DHCP acknowledgement announces is recorded if its
/// hardware address is not bound yet and the table has room, and is then
/// returned for export. A lease seen again for a bound hardware address
/// changes nothing, and neither does any other frame.
pub fn try_tc_ringbuf(table: &mut BindingTable, frame: &[u8]) -> (r: Result<
    Option<KeyValue>,
    PacketError,
>)
    ensures
        r == snoop_report(old(table)@, old(table).cap(), frame@),
        final(table)@ == snoop_log(old(table)@, old(table).cap(), frame@),
        final(table).cap() == old(table).cap(),
{
    let ghost log = table@;
    match recognize_dhcp_ack(frame)? {
        None => Ok(None),
        Some(binding) => {
            if ipmac_exists(table, binding.mac) {
                return Ok(None);
            }
            match ipmac_insert(table, binding.mac, binding.ip) {
                Ok(()) => {
                    assert(table@ == insert(log, table.cap(), binding.mac, binding.ip));
                    assert(table@ =~= log.push(binding));
                    Ok(Some(KeyValue { key: binding.mac, value: binding.ip }))
                },
                Err(_) => Ok(None),
            }
        },
    }
}

/// The snooper's hook: shows the frame to the snooper and lets it pass.
///
/// A frame that is cut short is none of the snooper's business either: it
/// passes like any other, and nothing is learned from it.
pub fn fullmrs_tc(table: &mut BindingTable, frame: &[u8]) -> (r: (Disposition, Option<KeyValue>))
    ensures
        r.0 == Disposition::Pass,
        r.1 == match snoop_report(old(table)@, old(table).cap(), frame@) {
            Ok(event) => event,
            Err(_) => None,
        },
        final(table)@ == snoop_log(old(table)@, old(table).cap(), frame@),
        final(table).cap() == old(table).cap(),
{
    match try_tc_ringbuf(table, frame) {
        Ok(event) => (Disposition::Pass, event),
        Err(_) => (Disposition::Pass, None),
    }
}

/// A frame shown to the snooper a second time teaches it nothing: the table
/// stays as the first showing left it, and no binding is reported.
pub proof fn lemma_replay_learns_nothing(log: Seq<IpMac>, capacity: nat, s: Seq<u8>)
    ensures
        ({
            let once = snoop_log(log, capacity, s);
            &&& !learns(once, capacity, s)
            &&& snoop_log(once, capacity, s) == once
            &&& snoop_report(log, capacity, s) is Ok ==> snoop_report(once, capacity, s) == Ok::<
                Option<KeyValue>,
                PacketError,
            >(None)
        }),
{
    if learns(log, capacity, s) {
        let binding = dhcp_ack(s)->Ok_0->Some_0;
        let once = log.push(binding);
        assert(once[log.len() as int].mac == binding.mac);
    }
}

} // verus!
