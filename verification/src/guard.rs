//! The ARP guard: holds ARP replies to the bindings learned from DHCP.
//!
//! A host may answer for an address only if a lease was seen that gave this
//! address to its hardware address. A reply from a hardware address without a
//! binding is dropped, and so is a reply that claims another address than the
//! one bound. Requests pass: what they ask for is checked when it is answered.
//!
//! The guard decides on ARP only; every other frame passes. Where it cannot
//! read what it needs to decide, it drops.

use vstd::prelude::*;
use crate::bindings::{ipmac_get, lemma_slot_unique, lookup, well_formed, BindingTable, IpMac};
use crate::headers::{
    arp_at, decode_arp, decode_eth, eth_at, eth_hdr_len, l3_offset, ARP_HDR_LEN, ARP_REPLY,
    ARP_REQUEST, ETHERTYPE_ARP, ETHERTYPE_IPV4, ETH_HDR_LEN,
};
use crate::packet::{in_bounds, Disposition, PacketError};
use crate::snoop::{dhcp_ack, learns, snoop_log, snoop_report};

verus! {

/// What the guard found a frame to be.
#[derive(Clone, Copy, Debug, PartialEq, Eq, Structural)]
pub enum ArpVerdict {
    /// Not an ARP frame: not for the guard to judge.
    NotArp,
    /// An ARP request.
    Request,
    /// An ARP reply whose sender claims the address bound to it.
    Verified,
    /// ARP for protocol addresses that are not IPv4 addresses.
    NotIpv4,
    /// ARP with an operation that is neither request nor reply.
    BadOperation,
    /// An ARP reply from a hardware address that has no binding.
    UnknownSender,
    /// An ARP reply whose sender claims another address than the one bound to
    /// it.
    Spoofed,
}

impl ArpVerdict {
    /// What is to happen to a frame of this kind.
    pub open spec fn disposition_spec(self) -> Disposition {
        match self {
            ArpVerdict::NotArp | ArpVerdict::Request | ArpVerdict::Verified => Disposition::Pass,
            ArpVerdict::NotIpv4
            | ArpVerdict::BadOperation
            | ArpVerdict::UnknownSender
            | ArpVerdict::Spoofed => Disposition::Drop,
        }
    }

    /// What is to happen to a frame of this kind.
    pub fn disposition(&self) -> (d: Disposition)
        ensures
            d == self.disposition_spec(),
    {
        match self {
            ArpVerdict::NotArp | ArpVerdict::Request | ArpVerdict::Verified => Disposition::Pass,
            ArpVerdict::NotIpv4
            | ArpVerdict::BadOperation
            | ArpVerdict::UnknownSender
            | ArpVerdict::Spoofed => Disposition::Drop,
        }
    }
}

/// What the guard finds the frame `s` to be, given the bindings in `log`.
pub open spec fn arp_verdict(log: Seq<IpMac>, s: Seq<u8>) -> Result<ArpVerdict, PacketError> {
    let n = s.len() as int;
    if !in_bounds(n, 0, ETH_HDR_LEN as int) {
        Err(PacketError::OutOfBounds)
    } else if eth_at(s).ether_type != ETHERTYPE_ARP {
        Ok(ArpVerdict::NotArp)
    } else if !in_bounds(n, l3_offset(), ARP_HDR_LEN as int) {
        Err(PacketError::OutOfBounds)
    } else {
        let arp = arp_at(s, l3_offset());
        if arp.plen != 4 {
            Ok(ArpVerdict::NotIpv4)
        } else if arp.oper == ARP_REQUEST {
            Ok(ArpVerdict::Request)
        } else if arp.oper != ARP_REPLY {
            Ok(ArpVerdict::BadOperation)
        } else {
            match lookup(log, arp.sha) {
                None => Ok(ArpVerdict::UnknownSender),
                Some(ip) => if ip == arp.spa {
                    Ok(ArpVerdict::Verified)
                } else {
                    Ok(ArpVerdict::Spoofed)
                },
            }
        }
    }
}

/// What the guard's hook does with the frame `s`: it drops where the guard
/// could not read the frame.
pub open spec fn guard_disposition(log: Seq<IpMac>, s: Seq<u8>) -> Disposition {
    match arp_verdict(log, s) {
        Ok(v) => v.disposition_spec(),
        Err(_) => Disposition::Drop,
    }
}

/// Judges a frame against the bindings in the table.
pub fn try_fullmrs(table: &BindingTable, frame: &[u8]) -> (r: Result<ArpVerdict, PacketError>)
    ensures
        r == arp_verdict(table@, frame@),
{
    let ethhdr = decode_eth(frame)?;
    if ethhdr.ether_type != ETHERTYPE_ARP {
        return Ok(ArpVerdict::NotArp);
    }
    let arphdr = decode_arp(frame, eth_hdr_len())?;
    if arphdr.plen != 4 {
        return Ok(ArpVerdict::NotIpv4);
    }
    if arphdr.oper != ARP_REQUEST && arphdr.oper != ARP_REPLY {
        return Ok(ArpVerdict::BadOperation);
    }
    if arphdr.oper == ARP_REPLY {
        match ipmac_get(table, arphdr.sha) {
            None => {
                return Ok(ArpVerdict::UnknownSender);
            },
            Some(mapip) => {
                if mapip != arphdr.spa {
                    return Ok(ArpVerdict::Spoofed);
                }
                return Ok(ArpVerdict::Verified);
            },
        }
    }
    Ok(ArpVerdict::Request)
}

/// The guard's hook: passes or drops a frame.
pub fn fullmrs_xdp(table: &BindingTable, frame: &[u8]) -> (d: Disposition)
    ensures
        d == guard_disposition(table@, frame@),
        d != Disposition::Pass ==> d == Disposition::Drop,
{
    match try_fullmrs(table, frame) {
        Ok(verdict) => verdict.disposition(),
        Err(_) => Disposition::Drop,
    }
}

/// A frame is a well-formed ARP reply for IPv4 that `sha` sends and in which
/// it claims the address `spa`.
pub open spec fn is_arp_reply_from(s: Seq<u8>, sha: [u8; 6], spa: u32) -> bool {
    &&& in_bounds(s.len() as int, l3_offset(), ARP_HDR_LEN as int)
    &&& eth_at(s).ether_type == ETHERTYPE_ARP
    &&& arp_at(s, l3_offset()).plen == 4
    &&& arp_at(s, l3_offset()).oper == ARP_REPLY
    &&& arp_at(s, l3_offset()).sha == sha
    &&& arp_at(s, l3_offset()).spa == spa
}

/// An ARP reply passes exactly if its sender's hardware address is bound and
/// the address it claims is the one bound: a reply that claims another
/// address is dropped, and so is a reply from a hardware address that has no
/// binding.
pub proof fn lemma_reply_passes_iff_bound(log: Seq<IpMac>, s: Seq<u8>, sha: [u8; 6], spa: u32)
    requires
        is_arp_reply_from(s, sha, spa),
    ensures
        guard_disposition(log, s) == if lookup(log, sha) == Some(spa) {
            Disposition::Pass
        } else {
            Disposition::Drop
        },
        lookup(log, sha) is None ==> arp_verdict(log, s) == Ok::<ArpVerdict, PacketError>(
            ArpVerdict::UnknownSender,
        ),
        lookup(log, sha) matches Some(ip) && ip != spa ==> arp_verdict(log, s) == Ok::<
            ArpVerdict,
            PacketError,
        >(ArpVerdict::Spoofed),
{
}

/// With the binding of `mac` to `ip` in the table, a reply in which `mac`
/// claims `ip` passes, and a reply in which `mac` claims anything else is
/// dropped.
pub proof fn lemma_bound_sender_held_to_binding(
    log: Seq<IpMac>,
    capacity: nat,
    i: int,
    s: Seq<u8>,
    spa: u32,
)
    requires
        well_formed(log, capacity),
        0 <= i < log.len(),
        is_arp_reply_from(s, log[i].mac, spa),
    ensures
        guard_disposition(log, s) == if spa == log[i].ip {
            Disposition::Pass
        } else {
            Disposition::Drop
        },
{
    lemma_slot_unique(log, log[i].mac, i);
}

/// A frame whose ethertype is neither IPv4 nor ARP passes the snooper and
/// the guard, and the table of bindings stays as it is.
pub proof fn lemma_unrecognized_ethertype_passes(log: Seq<IpMac>, capacity: nat, s: Seq<u8>)
    requires
        in_bounds(s.len() as int, 0, ETH_HDR_LEN as int),
        eth_at(s).ether_type != ETHERTYPE_IPV4,
        eth_at(s).ether_type != ETHERTYPE_ARP,
    ensures
        dhcp_ack(s) == Ok::<Option<IpMac>, PacketError>(None),
        snoop_report(log, capacity, s) is Ok,
        snoop_report(log, capacity, s)->Ok_0 is None,
        snoop_log(log, capacity, s) == log,
        arp_verdict(log, s) == Ok::<ArpVerdict, PacketError>(ArpVerdict::NotArp),
        guard_disposition(log, s) == Disposition::Pass,
{
}

/// A lease is a trust anchor. Once the snooper has learned a binding from a
/// DHCP acknowledgement, the guard lets the bound hardware address answer
/// for the leased address and for no other.
pub proof fn lemma_lease_anchors_replies(
    log: Seq<IpMac>,
    capacity: nat,
    ack: Seq<u8>,
    reply: Seq<u8>,
    spa: u32,
)
    requires
        well_formed(log, capacity),
        learns(log, capacity, ack),
        is_arp_reply_from(reply, dhcp_ack(ack)->Ok_0->Some_0.mac, spa),
    ensures
        guard_disposition(snoop_log(log, capacity, ack), reply) == if spa == dhcp_ack(
            ack,
        )->Ok_0->Some_0.ip {
            Disposition::Pass
        } else {
            Disposition::Drop
        },
{
    let binding = dhcp_ack(ack)->Ok_0->Some_0;
    let learned = snoop_log(log, capacity, ack);
    assert(learned == log.push(binding));
    assert forall|i: int, j: int| 0 <= i < j < learned.len() implies (#[trigger] learned[i]).mac
        != (#[trigger] learned[j]).mac by {
        if j < log.len() {
            assert(log[i].mac != log[j].mac);
        } else {
            assert(log[i].mac != binding.mac);
        }
    }
    lemma_slot_unique(learned, binding.mac, log.len() as int);
}

} // verus!
