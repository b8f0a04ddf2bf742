//! The relay between a wired uplink and two radios.
//!
//! A client sits behind the relay on one of two radios: radio A, the light
//! medium, and radio B, the radio medium. What arrives on the uplink and is
//! not for the relay itself is for the client: the relay rewrites its
//! destination to the client's addresses and sends it out of the radio that
//! the medium selection names. Towards the uplink, it rewrites the source of
//! what arrives on a radio and sends it out of the uplink. Every rewrite of
//! an address corrects the checksums that cover it in the same step.
//!
//! For ARP the relay is a proxy. A request for an address it has resolved
//! before is answered on the spot. A request for any other address is sent
//! on under the uplink's identity, and the relay notes who asked; when the
//! answer comes back, it is handed to the one who asked and remembered.
//!
//! The relay stands in the path: where it cannot read what it needs, or lacks
//! an entry that it needs, it drops. Frames of protocols that it does not
//! handle pass.

use vstd::prelude::*;
use crate::arp_cache::{
    arp_insert, arp_lookup, arp_takes, arp_well_formed, ArpCache, IpMacMap,
};
use crate::csum::{
    addr_in, csum_replace_addr, csum_replace_addr_port, hi16, internet_checksum, lo16,
    update_ipv4_csum, update_l4_csum, with_addr,
};
use crate::headers::{
    arp_at, decode_arp, decode_eth, decode_ipv4, decode_tcp, decode_udp, eth_at, eth_hdr_len,
    ipv4_at, ipv4_hdr_len, l3_offset, l4_offset, store_arp, udp_at, udp_hdr_len,
    udp_payload_offset, write_arp, ArpHeader, ARP_HDR_LEN, ARP_REPLY, ARP_REQUEST,
    ETHERTYPE_ARP, ETHERTYPE_IPV4, ETH_HDR_LEN, IPPROTO_ICMP, IPPROTO_TCP, IPPROTO_UDP,
    IPV4_HDR_LEN, TCP_HDR_LEN, UDP_HDR_LEN,
};
use crate::iface::IfaceMap;
use crate::packet::{
    be16, be32, check_bounds, in_bounds, mac_eq, read_be32, store_be16, store_be32, store_mac,
    write_be16, write_be32, write_mac, Disposition, PacketError,
};

verus! {

/// UDP port on which a radio receives the message that selects the medium.
pub const CONTROL_PORT: u16 = 4;

/// Length of the message that selects the medium.
pub const CONTROL_MSG_LEN: usize = 4;

/// The client behind the relay.
#[derive(Clone, Copy, Debug, PartialEq, Eq)]
pub struct ClientMap {
    /// IPv4 address, as a number in host order.
    pub ip: u32,
    /// Hardware address.
    pub mac: [u8; 6],
}

/// The hardware address last seen as the source of a frame on the uplink.
#[derive(Clone, Copy, Debug, PartialEq, Eq)]
pub struct MacCache {
    /// The address.
    pub addr: [u8; 6],
}

/// The radio interface that a frame for the client leaves by.
#[derive(Clone, Copy, Debug, PartialEq, Eq, Structural)]
pub enum RedirectOpts {
    /// Radio A.
    WIFI,
    /// Radio B.
    PLC,
}

/// The medium that carries traffic to the client.
#[derive(Clone, Copy, Debug, PartialEq, Eq, Structural)]
pub enum MediumSelection {
    /// Radio A.
    Light,
    /// Radio B.
    Radio,
}

/// How the medium is chosen, and the medium that is selected at present.
#[derive(Clone, Copy, Debug, PartialEq, Eq, Structural)]
pub enum HandoverMode {
    /// The choice is left to signalling.
    Auto(MediumSelection),
    /// The choice was made by the operator.
    Manual(MediumSelection),
}

/// What the control plane has set.
#[derive(Clone, Copy, Debug, PartialEq, Eq)]
pub struct UserParams {
    /// How the medium is chosen, and the medium that is selected at present.
    pub handover_mode: HandoverMode,
}

/// The message that selects the medium: four bytes, read as one number.
#[derive(Clone, Copy, Debug, PartialEq, Eq)]
pub struct HandoverParams {
    /// Zero selects radio A, anything else radio B.
    pub val: u32,
}

impl HandoverMode {
    /// The medium chosen.
    pub open spec fn medium_spec(self) -> MediumSelection {
        match self {
            HandoverMode::Auto(m) => m,
            HandoverMode::Manual(m) => m,
        }
    }

    /// The medium chosen.
    pub fn medium(&self) -> (m: MediumSelection)
        ensures
            m == self.medium_spec(),
    {
        match self {
            HandoverMode::Auto(m) => *m,
            HandoverMode::Manual(m) => *m,
        }
    }

    /// The same way of choosing, with `medium` chosen.
    pub open spec fn with_medium_spec(self, medium: MediumSelection) -> HandoverMode {
        match self {
            HandoverMode::Auto(_) => HandoverMode::Auto(medium),
            HandoverMode::Manual(_) => HandoverMode::Manual(medium),
        }
    }

    /// The same way of choosing, with `medium` chosen.
    pub fn with_medium(&self, medium: MediumSelection) -> (mode: HandoverMode)
        ensures
            mode == self.with_medium_spec(medium),
    {
        match self {
            HandoverMode::Auto(_) => HandoverMode::Auto(medium),
            HandoverMode::Manual(_) => HandoverMode::Manual(medium),
        }
    }
}

impl HandoverParams {
    /// The medium that the message selects.
    pub open spec fn selection_spec(self) -> MediumSelection {
        if self.val != 0 {
            MediumSelection::Radio
        } else {
            MediumSelection::Light
        }
    }

    /// The medium that the message selects.
    pub fn selection(&self) -> (m: MediumSelection)
        ensures
            m == self.selection_spec(),
    {
        if self.val != 0 {
            MediumSelection::Radio
        } else {
            MediumSelection::Light
        }
    }
}

impl MediumSelection {
    /// The interface that belongs to the medium.
    pub open spec fn redirect_spec(self) -> RedirectOpts {
        match self {
            MediumSelection::Light => RedirectOpts::WIFI,
            MediumSelection::Radio => RedirectOpts::PLC,
        }
    }

    /// The interface that belongs to the medium.
    pub fn redirect(&self) -> (o: RedirectOpts)
        ensures
            o == self.redirect_spec(),
    {
        match self {
            MediumSelection::Light => RedirectOpts::WIFI,
            MediumSelection::Radio => RedirectOpts::PLC,
        }
    }
}

/// What the relay keeps from one frame to the next.
pub struct RelayState {
    /// The hardware address last seen as a source on the uplink.
    pub mac_cache: MacCache,
    /// The addresses that the relay has resolved.
    pub arp_cache: ArpCache,
    /// The requests that the relay has forwarded: for each address asked
    /// for, who asked.
    pub client_requests: ArpCache,
    /// The medium selection.
    pub user_params: UserParams,
}

/// The relay's state as plain values.
#[verifier::ext_equal]
pub struct RelayModel {
    /// The hardware address last seen as a source on the uplink.
    pub mac_cache: [u8; 6],
    /// The addresses resolved.
    pub arp_cache: Seq<IpMacMap>,
    /// How many resolved addresses the relay can hold.
    pub arp_capacity: nat,
    /// The requests forwarded.
    pub client_requests: Seq<IpMacMap>,
    /// How many forwarded requests the relay can hold.
    pub requests_capacity: nat,
    /// The medium selection.
    pub mode: HandoverMode,
}

impl View for RelayState {
    type V = RelayModel;

    open spec fn view(&self) -> RelayModel {
        RelayModel {
            mac_cache: self.mac_cache.addr,
            arp_cache: self.arp_cache@,
            arp_capacity: self.arp_cache.cap(),
            client_requests: self.client_requests@,
            requests_capacity: self.client_requests.cap(),
            mode: self.user_params.handover_mode,
        }
    }
}

impl RelayModel {
    /// Whether both tables are valid.
    pub open spec fn well_formed(self) -> bool {
        arp_well_formed(self.arp_cache, self.arp_capacity) && arp_well_formed(
            self.client_requests,
            self.requests_capacity,
        )
    }
}

impl RelayState {
    /// A relay that has seen nothing yet, with empty tables of the given
    /// capacities.
    pub fn new(arp_capacity: usize, requests_capacity: usize, user_params: UserParams) -> (state:
        RelayState)
        ensures
            state@ == (RelayModel {
                mac_cache: [0u8, 0u8, 0u8, 0u8, 0u8, 0u8],
                arp_cache: Seq::<IpMacMap>::empty(),
                arp_capacity: arp_capacity as nat,
                client_requests: Seq::<IpMacMap>::empty(),
                requests_capacity: requests_capacity as nat,
                mode: user_params.handover_mode,
            }),
    {
        let state = RelayState {
            mac_cache: MacCache { addr: [0u8, 0u8, 0u8, 0u8, 0u8, 0u8] },
            arp_cache: ArpCache::new(arp_capacity),
            client_requests: ArpCache::new(requests_capacity),
            user_params,
        };
        state
    }
}

/// What one frame does to the relay: what is to happen to the frame, the
/// state after it, and the frame as it leaves.
#[verifier::ext_equal]
pub struct RelayStep {
    /// What is to happen to the frame.
    pub verdict: Result<Disposition, PacketError>,
    /// The relay's state after the frame.
    pub state: RelayModel,
    /// The frame as it leaves.
    pub frame: Seq<u8>,
}

/// The reply that answers the request `request` with the hardware address
/// `mac` for the address `srcip`: sender and target change places, and the
/// sender is filled in.
pub open spec fn generate_arp_resp_spec(request: ArpHeader, mac: [u8; 6], srcip: u32) -> ArpHeader {
    ArpHeader {
        htype: 1,
        ptype: 0x0800,
        hlen: 6,
        plen: 4,
        oper: ARP_REPLY,
        sha: mac,
        spa: srcip,
        tha: request.sha,
        tpa: request.spa,
    }
}

/// Makes the reply that answers the request `arphdr` with the hardware
/// address `mac` for the address `srcip`.
pub fn generate_arp_resp(arphdr: &ArpHeader, mac: [u8; 6], srcip: u32) -> (reply: ArpHeader)
    ensures
        reply == generate_arp_resp_spec(*arphdr, mac, srcip),
{
    ArpHeader {
        htype: 1,
        ptype: 0x0800,
        hlen: 6,
        plen: 4,
        oper: ARP_REPLY,
        sha: mac,
        spa: srcip,
        tha: arphdr.sha,
        tpa: arphdr.spa,
    }
}

/// Whether the relay translates datagrams of this protocol.
pub open spec fn is_relayed(proto: u8) -> bool {
    proto == IPPROTO_TCP || proto == IPPROTO_UDP || proto == IPPROTO_ICMP
}

/// Whether the frame holds the transport header that goes with `proto`.
pub open spec fn l4_in_bounds(s: Seq<u8>, proto: u8) -> bool {
    &&& proto == IPPROTO_TCP ==> in_bounds(s.len() as int, l4_offset(), TCP_HDR_LEN as int)
    &&& proto == IPPROTO_UDP ==> in_bounds(s.len() as int, l4_offset(), UDP_HDR_LEN as int)
}

/// Offset of the checksum in the transport header that goes with `proto`.
pub open spec fn l4_check_offset(proto: u8) -> int {
    if proto == IPPROTO_TCP {
        l4_offset() + 16
    } else {
        l4_offset() + 6
    }
}

/// The frame with its transport checksum corrected for an address that
/// changes from `old_addr` to `new_addr`. Only TCP and UDP checksums cover
/// the addresses.
pub open spec fn l4_corrected(s: Seq<u8>, proto: u8, old_addr: u32, new_addr: u32) -> Seq<u8> {
    if proto == IPPROTO_TCP || proto == IPPROTO_UDP {
        let port = be16(s, l4_offset());
        store_be16(
            s,
            l4_check_offset(proto),
            csum_replace_addr_port(
                be16(s, l4_check_offset(proto)),
                old_addr,
                new_addr,
                port,
                port,
            ),
        )
    } else {
        s
    }
}

/// The frame with the IPv4 address at `addr_off` changed to `new_addr` and
/// the header and transport checksums corrected for it.
pub open spec fn readdressed(s: Seq<u8>, addr_off: int, new_addr: u32) -> Seq<u8> {
    let ip = ipv4_at(s, l3_offset());
    let old_addr = be32(s, addr_off);
    let s1 = l4_corrected(s, ip.proto, old_addr, new_addr);
    let s2 = store_be16(s1, l3_offset() + 10, csum_replace_addr(ip.check, old_addr, new_addr));
    store_be32(s2, addr_off, new_addr)
}

/// Sending a frame to the client: the interface it leaves by, and the frame
/// as it leaves. On radio B the frame carries that interface's
/// hardware address as its source.
pub open spec fn to_client(ifaces: IfaceMap, mode: HandoverMode, s: Seq<u8>) -> (Disposition, Seq<u8>) {
    match mode.medium_spec().redirect_spec() {
        RedirectOpts::PLC => (
            Disposition::Redirect(ifaces.plc_iface.idx),
            store_mac(s, 6, ifaces.plc_iface.mac),
        ),
        RedirectOpts::WIFI => (Disposition::Redirect(ifaces.wifi_iface.idx), s),
    }
}

/// A step that leaves state and frame as they are.
pub open spec fn unchanged(
    verdict: Result<Disposition, PacketError>,
    st: RelayModel,
    s: Seq<u8>,
) -> RelayStep {
    RelayStep { verdict, state: st, frame: s }
}

/// What an ARP request does to the relay.
pub open spec fn arp_request_step(ifaces: IfaceMap, st: RelayModel, s: Seq<u8>) -> RelayStep {
    let arp = arp_at(s, l3_offset());
    match arp_lookup(st.arp_cache, arp.tpa) {
        Some(mac) => {
            let answered = store_arp(s, l3_offset(), generate_arp_resp_spec(arp, mac, arp.tpa));
            let out = to_client(ifaces, st.mode, answered);
            RelayStep { verdict: Ok(out.0), state: st, frame: out.1 }
        },
        None => if arp_takes(st.client_requests, st.requests_capacity, arp.tpa) {
            RelayStep {
                verdict: Ok(Disposition::Redirect(ifaces.eth_iface.idx)),
                state: RelayModel {
                    client_requests: arp_insert(
                        st.client_requests,
                        st.requests_capacity,
                        arp.tpa,
                        arp.sha,
                    ),
                    ..st
                },
                frame: store_be32(
                    store_mac(s, l3_offset() + 8, ifaces.eth_iface.mac),
                    l3_offset() + 14,
                    ifaces.eth_iface.ip,
                ),
            }
        } else {
            unchanged(Ok(Disposition::Drop), st, s)
        },
    }
}

/// What an ARP reply does to the relay.
pub open spec fn arp_reply_step(ifaces: IfaceMap, st: RelayModel, s: Seq<u8>) -> RelayStep {
    let arp = arp_at(s, l3_offset());
    if arp.tha != ifaces.eth_iface.mac {
        unchanged(Ok(Disposition::Drop), st, s)
    } else {
        match arp_lookup(st.client_requests, arp.spa) {
            None => unchanged(Ok(Disposition::Drop), st, s),
            Some(requester) => {
                let restored = store_mac(store_mac(s, 0, requester), l3_offset() + 18, requester);
                let out = to_client(ifaces, st.mode, restored);
                RelayStep {
                    verdict: Ok(out.0),
                    state: RelayModel {
                        arp_cache: arp_insert(st.arp_cache, st.arp_capacity, arp.spa, arp.sha),
                        ..st
                    },
                    frame: out.1,
                }
            },
        }
    }
}

/// What an ARP frame does to the relay.
pub open spec fn arp_step(ifaces: IfaceMap, st: RelayModel, s: Seq<u8>) -> RelayStep {
    if !in_bounds(s.len() as int, l3_offset(), ARP_HDR_LEN as int) {
        unchanged(Err(PacketError::OutOfBounds), st, s)
    } else {
        let arp = arp_at(s, l3_offset());
        if arp.plen != 4 {
            unchanged(Ok(Disposition::Drop), st, s)
        } else if arp.sha == ifaces.eth_iface.mac {
            unchanged(Ok(Disposition::Drop), st, s)
        } else if arp.oper == ARP_REQUEST {
            arp_request_step(ifaces, st, s)
        } else if arp.oper == ARP_REPLY {
            arp_reply_step(ifaces, st, s)
        } else {
            unchanged(Ok(Disposition::Drop), st, s)
        }
    }
}

/// Whether a datagram for `dst` is local, that is, the relay's own:
/// addressed to one of its three interfaces.
pub open spec fn is_local(ifaces: IfaceMap, dst: u32) -> bool {
    dst == ifaces.eth_iface.ip || dst == ifaces.wifi_iface.ip || dst == ifaces.plc_iface.ip
}

/// What an IPv4 frame that arrives on the uplink does to the relay.
///
/// A datagram addressed to the relay itself is local and passes, and so
/// does a datagram of a protocol that the relay does not translate. Every
/// other datagram is for the client: its destination becomes the client's
/// address and hardware address, its checksums are corrected, and it leaves
/// by the radio selected.
pub open spec fn ipv4_to_client_step(
    ifaces: IfaceMap,
    client: ClientMap,
    st: RelayModel,
    s: Seq<u8>,
) -> RelayStep {
    if !in_bounds(s.len() as int, l3_offset(), IPV4_HDR_LEN as int) {
        unchanged(Err(PacketError::OutOfBounds), st, s)
    } else {
        let ip = ipv4_at(s, l3_offset());
        if is_local(ifaces, ip.dst_addr) || !is_relayed(ip.proto) {
            unchanged(Ok(Disposition::Pass), st, s)
        } else if !l4_in_bounds(s, ip.proto) {
            unchanged(Err(PacketError::OutOfBounds), st, s)
        } else {
            let rewritten = store_mac(readdressed(s, l3_offset() + 16, client.ip), 0, client.mac);
            let out = to_client(ifaces, st.mode, rewritten);
            RelayStep { verdict: Ok(out.0), state: st, frame: out.1 }
        }
    }
}

/// What a frame that arrives on the uplink does to the relay.
pub open spec fn eth_step(ifaces: IfaceMap, client: ClientMap, st: RelayModel, s: Seq<u8>) -> RelayStep {
    if !in_bounds(s.len() as int, 0, ETH_HDR_LEN as int) {
        unchanged(Err(PacketError::OutOfBounds), st, s)
    } else {
        let eth = eth_at(s);
        let seen = RelayModel { mac_cache: eth.src_addr, ..st };
        if eth.ether_type == ETHERTYPE_ARP {
            arp_step(ifaces, seen, s)
        } else if eth.ether_type == ETHERTYPE_IPV4 {
            ipv4_to_client_step(ifaces, client, seen, s)
        } else {
            unchanged(Ok(Disposition::Pass), seen, s)
        }
    }
}

/// Whether the frame is the message that selects the medium: a UDP datagram
/// for the control port.
pub open spec fn is_control(s: Seq<u8>) -> bool {
    ipv4_at(s, l3_offset()).proto == IPPROTO_UDP && udp_at(s, l4_offset()).dest == CONTROL_PORT
}

/// What a frame that arrives on a radio does to the relay. Only where
/// `control` is set does the radio listen for the message that selects the
/// medium.
pub open spec fn radio_step(ifaces: IfaceMap, st: RelayModel, s: Seq<u8>, control: bool) -> RelayStep {
    if !in_bounds(s.len() as int, 0, ETH_HDR_LEN as int) {
        unchanged(Err(PacketError::OutOfBounds), st, s)
    } else if eth_at(s).ether_type != ETHERTYPE_IPV4 {
        unchanged(Ok(Disposition::Pass), st, s)
    } else if !in_bounds(s.len() as int, l3_offset(), IPV4_HDR_LEN as int) {
        unchanged(Err(PacketError::OutOfBounds), st, s)
    } else {
        let ip = ipv4_at(s, l3_offset());
        if !is_relayed(ip.proto) {
            unchanged(Ok(Disposition::Pass), st, s)
        } else if !l4_in_bounds(s, ip.proto) {
            unchanged(Err(PacketError::OutOfBounds), st, s)
        } else if control && is_control(s) {
            if !in_bounds(s.len() as int, udp_payload_offset(), CONTROL_MSG_LEN as int) {
                unchanged(Err(PacketError::OutOfBounds), st, s)
            } else {
                let msg = HandoverParams { val: be32(s, udp_payload_offset()) };
                RelayStep {
                    verdict: Ok(Disposition::Drop),
                    state: RelayModel {
                        mode: st.mode.with_medium_spec(msg.selection_spec()),
                        ..st
                    },
                    frame: s,
                }
            }
        } else {
            RelayStep {
                verdict: Ok(Disposition::Redirect(ifaces.eth_iface.idx)),
                state: st,
                frame: store_mac(
                    readdressed(s, l3_offset() + 12, ifaces.eth_iface.ip),
                    6,
                    st.mac_cache,
                ),
            }
        }
    }
}

/// What a relay hook does with a frame: it drops where the frame could not
/// be read.
pub open spec fn hook_disposition(verdict: Result<Disposition, PacketError>) -> Disposition {
    match verdict {
        Ok(d) => d,
        Err(_) => Disposition::Drop,
    }
}

/// Sends a frame to the client by the medium selected.
fn redirect_to_client(ifaces: &IfaceMap, mode: &HandoverMode, frame: &mut [u8]) -> (d: Disposition)
    requires
        old(frame)@.len() >= ETH_HDR_LEN,
    ensures
        (d, final(frame)@) == to_client(*ifaces, *mode, old(frame)@),
{
    match mode.medium().redirect() {
        RedirectOpts::PLC => {
            write_mac(frame, 6, &ifaces.plc_iface.mac);
            Disposition::Redirect(ifaces.plc_iface.idx)
        },
        RedirectOpts::WIFI => Disposition::Redirect(ifaces.wifi_iface.idx),
    }
}

/// Changes the IPv4 address at `addr_off` to `new_addr` and corrects the
/// checksums that cover it.
fn readdress(frame: &mut [u8], addr_off: usize, new_addr: u32) -> (r: Result<(), PacketError>)
    requires
        in_bounds(old(frame)@.len() as int, l3_offset(), IPV4_HDR_LEN as int),
        is_relayed(ipv4_at(old(frame)@, l3_offset()).proto),
        addr_off == l3_offset() + 12 || addr_off == l3_offset() + 16,
    ensures
        r is Ok <==> l4_in_bounds(old(frame)@, ipv4_at(old(frame)@, l3_offset()).proto),
        r is Ok ==> final(frame)@ == readdressed(old(frame)@, addr_off as int, new_addr),
        r is Err ==> r == Err::<(), PacketError>(PacketError::OutOfBounds) && final(frame)@ == old(
            frame,
        )@,
{
    let ip_off = eth_hdr_len();
    let l4_off = ip_off + ipv4_hdr_len();
    let iphdr = decode_ipv4(frame, ip_off)?;
    let old_addr = read_be32(frame, addr_off);
    if iphdr.proto == IPPROTO_TCP {
        let tcphdr = decode_tcp(frame, l4_off)?;
        let mut check = tcphdr.check;
        update_l4_csum(&mut check, old_addr, new_addr, tcphdr.source, tcphdr.source);
        write_be16(frame, l4_off + 16, check);
    } else if iphdr.proto == IPPROTO_UDP {
        let udphdr = decode_udp(frame, l4_off)?;
        let mut check = udphdr.check;
        update_l4_csum(&mut check, old_addr, new_addr, udphdr.source, udphdr.source);
        write_be16(frame, l4_off + 6, check);
    }
    let mut check = iphdr.check;
    update_ipv4_csum(&mut check, old_addr, new_addr);
    write_be16(frame, ip_off + 10, check);
    write_be32(frame, addr_off, new_addr);
    Ok(())
}

/// Handles an ARP frame that arrives on the uplink.
fn try_eth_arp(ifaces: &IfaceMap, state: &mut RelayState, frame: &mut [u8]) -> (r: Result<
    Disposition,
    PacketError,
>)
    requires
        in_bounds(old(frame)@.len() as int, 0, ETH_HDR_LEN as int),
    ensures
        (RelayStep { verdict: r, state: final(state)@, frame: final(frame)@ }) == arp_step(
            *ifaces,
            old(state)@,
            old(frame)@,
        ),
{
    let off = eth_hdr_len();
    let arphdr = decode_arp(frame, off)?;
    if arphdr.plen != 4 {
        return Ok(Disposition::Drop);
    }
    if mac_eq(&arphdr.sha, &ifaces.eth_iface.mac) {
        return Ok(Disposition::Drop);
    }
    if arphdr.oper == ARP_REQUEST {
        match state.arp_cache.get(arphdr.tpa) {
            Some(mac) => {
                let reply = generate_arp_resp(&arphdr, mac, arphdr.tpa);
                write_arp(frame, off, &reply);
                Ok(redirect_to_client(ifaces, &state.user_params.handover_mode, frame))
            },
            None => match state.client_requests.insert(arphdr.tpa, arphdr.sha) {
                Err(_) => Ok(Disposition::Drop),
                Ok(()) => {
                    write_mac(frame, off + 8, &ifaces.eth_iface.mac);
                    write_be32(frame, off + 14, ifaces.eth_iface.ip);
                    Ok(Disposition::Redirect(ifaces.eth_iface.idx))
                },
            },
        }
    } else if arphdr.oper == ARP_REPLY {
        if !mac_eq(&arphdr.tha, &ifaces.eth_iface.mac) {
            return Ok(Disposition::Drop);
        }
        match state.client_requests.get(arphdr.spa) {
            None => Ok(Disposition::Drop),
            Some(requester) => {
                // A full cache keeps what it has; the answer is handed on all
                // the same.
                let _ = state.arp_cache.insert(arphdr.spa, arphdr.sha);
                write_mac(frame, 0, &requester);
                write_mac(frame, off + 18, &requester);
                Ok(redirect_to_client(ifaces, &state.user_params.handover_mode, frame))
            },
        }
    } else {
        Ok(Disposition::Drop)
    }
}

/// Handles an IPv4 frame that arrives on the uplink.
fn try_eth_ipv4(
    ifaces: &IfaceMap,
    client: &ClientMap,
    state: &RelayState,
    frame: &mut [u8],
) -> (r: Result<Disposition, PacketError>)
    requires
        in_bounds(old(frame)@.len() as int, 0, ETH_HDR_LEN as int),
    ensures
        (RelayStep { verdict: r, state: state@, frame: final(frame)@ }) == ipv4_to_client_step(
            *ifaces,
            *client,
            state@,
            old(frame)@,
        ),
{
    let ip_off = eth_hdr_len();
    let iphdr = decode_ipv4(frame, ip_off)?;
    if iphdr.dst_addr == ifaces.eth_iface.ip || iphdr.dst_addr == ifaces.wifi_iface.ip
        || iphdr.dst_addr == ifaces.plc_iface.ip {
        return Ok(Disposition::Pass);
    }
    if iphdr.proto != IPPROTO_TCP && iphdr.proto != IPPROTO_UDP && iphdr.proto != IPPROTO_ICMP {
        return Ok(Disposition::Pass);
    }
    readdress(frame, ip_off + 16, client.ip)?;
    write_mac(frame, 0, &client.mac);
    Ok(redirect_to_client(ifaces, &state.user_params.handover_mode, frame))
}

/// Handles a frame that arrives on the uplink.
///
/// The source of every frame is remembered as the uplink's neighbour. ARP is
/// proxied. IPv4 that is not addressed to the relay itself is rewritten for
/// the client and sent out of the radio selected. Anything else passes.
pub fn try_eth(
    ifaces: &IfaceMap,
    client: &ClientMap,
    state: &mut RelayState,
    frame: &mut [u8],
) -> (r: Result<Disposition, PacketError>)
    ensures
        (RelayStep { verdict: r, state: final(state)@, frame: final(frame)@ }) == eth_step(
            *ifaces,
            *client,
            old(state)@,
            old(frame)@,
        ),
{
    let ethhdr = decode_eth(frame)?;
    state.mac_cache.addr = ethhdr.src_addr;
    if ethhdr.ether_type == ETHERTYPE_ARP {
        try_eth_arp(ifaces, state, frame)
    } else if ethhdr.ether_type == ETHERTYPE_IPV4 {
        try_eth_ipv4(ifaces, client, state, frame)
    } else {
        Ok(Disposition::Pass)
    }
}

/// Handles a frame that arrives on a radio.
fn try_radio(ifaces: &IfaceMap, state: &mut RelayState, frame: &mut [u8], control: bool) -> (r:
    Result<Disposition, PacketError>)
    ensures
        (RelayStep { verdict: r, state: final(state)@, frame: final(frame)@ }) == radio_step(
            *ifaces,
            old(state)@,
            old(frame)@,
            control,
        ),
{
    let ethhdr = decode_eth(frame)?;
    if ethhdr.ether_type != ETHERTYPE_IPV4 {
        return Ok(Disposition::Pass);
    }
    let ip_off = eth_hdr_len();
    let iphdr = decode_ipv4(frame, ip_off)?;
    if iphdr.proto != IPPROTO_TCP && iphdr.proto != IPPROTO_UDP && iphdr.proto != IPPROTO_ICMP {
        return Ok(Disposition::Pass);
    }
    let l4_off = ip_off + ipv4_hdr_len();
    if iphdr.proto == IPPROTO_UDP {
        let udphdr = decode_udp(frame, l4_off)?;
        if control && udphdr.dest == CONTROL_PORT {
            let msg_off = l4_off + udp_hdr_len();
            check_bounds(frame, msg_off, CONTROL_MSG_LEN)?;
            let handover = HandoverParams { val: read_be32(frame, msg_off) };
            state.user_params.handover_mode = state.user_params.handover_mode.with_medium(
                handover.selection(),
            );
            // The message has done its work and goes no further.
            return Ok(Disposition::Drop);
        }
    }
    readdress(frame, ip_off + 12, ifaces.eth_iface.ip)?;
    write_mac(frame, 6, &state.mac_cache.addr);
    Ok(Disposition::Redirect(ifaces.eth_iface.idx))
}

/// Handles a frame that arrives on radio A. The message that selects the
/// medium is acted on, whatever the way of choosing, which it leaves as it
/// is, and is then dropped. Other IPv4 traffic is rewritten to come from the
/// uplink's address and sent out of the uplink.
pub fn try_wifi(ifaces: &IfaceMap, state: &mut RelayState, frame: &mut [u8]) -> (r: Result<
    Disposition,
    PacketError,
>)
    ensures
        (RelayStep { verdict: r, state: final(state)@, frame: final(frame)@ }) == radio_step(
            *ifaces,
            old(state)@,
            old(frame)@,
            true,
        ),
{
    try_radio(ifaces, state, frame, true)
}

/// Handles a frame that arrives on radio B: IPv4 traffic is
/// rewritten to come from the uplink's address and sent out of the uplink.
pub fn try_plc(ifaces: &IfaceMap, state: &mut RelayState, frame: &mut [u8]) -> (r: Result<
    Disposition,
    PacketError,
>)
    ensures
        (RelayStep { verdict: r, state: final(state)@, frame: final(frame)@ }) == radio_step(
            *ifaces,
            old(state)@,
            old(frame)@,
            false,
        ),
{
    try_radio(ifaces, state, frame, false)
}

/// The uplink's hook.
pub fn xdp_eth(ifaces: &IfaceMap, client: &ClientMap, state: &mut RelayState, frame: &mut [u8]) -> (d:
    Disposition)
    ensures
        d == hook_disposition(eth_step(*ifaces, *client, old(state)@, old(frame)@).verdict),
        final(state)@ == eth_step(*ifaces, *client, old(state)@, old(frame)@).state,
        final(frame)@ == eth_step(*ifaces, *client, old(state)@, old(frame)@).frame,
{
    match try_eth(ifaces, client, state, frame) {
        Ok(d) => d,
        Err(_) => Disposition::Drop,
    }
}

/// Radio A's hook.
pub fn xdp_wifi(ifaces: &IfaceMap, state: &mut RelayState, frame: &mut [u8]) -> (d: Disposition)
    ensures
        d == hook_disposition(radio_step(*ifaces, old(state)@, old(frame)@, true).verdict),
        final(state)@ == radio_step(*ifaces, old(state)@, old(frame)@, true).state,
        final(frame)@ == radio_step(*ifaces, old(state)@, old(frame)@, true).frame,
{
    match try_wifi(ifaces, state, frame) {
        Ok(d) => d,
        Err(_) => Disposition::Drop,
    }
}

/// Radio B's hook.
pub fn xdp_plc(ifaces: &IfaceMap, state: &mut RelayState, frame: &mut [u8]) -> (d: Disposition)
    ensures
        d == hook_disposition(radio_step(*ifaces, old(state)@, old(frame)@, false).verdict),
        final(state)@ == radio_step(*ifaces, old(state)@, old(frame)@, false).state,
        final(frame)@ == radio_step(*ifaces, old(state)@, old(frame)@, false).frame,
{
    match try_plc(ifaces, state, frame) {
        Ok(d) => d,
        Err(_) => Disposition::Drop,
    }
}

/// Whether `s` is an ARP request for IPv4 in which `requester` asks who has
/// the address `target`.
pub open spec fn is_arp_request_for(s: Seq<u8>, requester: [u8; 6], target: u32) -> bool {
    &&& in_bounds(s.len() as int, l3_offset(), ARP_HDR_LEN as int)
    &&& eth_at(s).ether_type == ETHERTYPE_ARP
    &&& arp_at(s, l3_offset()).plen == 4
    &&& arp_at(s, l3_offset()).oper == ARP_REQUEST
    &&& arp_at(s, l3_offset()).sha == requester
    &&& arp_at(s, l3_offset()).tpa == target
}

/// Whether `s` is an ARP reply for IPv4 in which `owner` tells the hardware
/// address `to` that it has the address `target`.
pub open spec fn is_arp_reply_about(s: Seq<u8>, owner: [u8; 6], target: u32, to: [u8; 6]) -> bool {
    &&& in_bounds(s.len() as int, l3_offset(), ARP_HDR_LEN as int)
    &&& eth_at(s).ether_type == ETHERTYPE_ARP
    &&& arp_at(s, l3_offset()).plen == 4
    &&& arp_at(s, l3_offset()).oper == ARP_REPLY
    &&& arp_at(s, l3_offset()).sha == owner
    &&& arp_at(s, l3_offset()).spa == target
    &&& arp_at(s, l3_offset()).tha == to
}

/// Sending a frame to the client touches nothing but the frame's source
/// address, and always redirects.
pub proof fn lemma_to_client_keeps_payload(ifaces: IfaceMap, mode: HandoverMode, s: Seq<u8>)
    requires
        in_bounds(s.len() as int, l3_offset(), ARP_HDR_LEN as int),
    ensures
        to_client(ifaces, mode, s).0 is Redirect,
        to_client(ifaces, mode, s).1.len() == s.len(),
        eth_at(to_client(ifaces, mode, s).1).dst_addr == eth_at(s).dst_addr,
        eth_at(to_client(ifaces, mode, s).1).ether_type == eth_at(s).ether_type,
        arp_at(to_client(ifaces, mode, s).1, l3_offset()) == arp_at(s, l3_offset()),
{
    let t = to_client(ifaces, mode, s).1;
    assert(eth_at(t).dst_addr =~= eth_at(s).dst_addr);
    assert(arp_at(t, l3_offset()).sha =~= arp_at(s, l3_offset()).sha);
    assert(arp_at(t, l3_offset()).tha =~= arp_at(s, l3_offset()).tha);
}

/// Writing a new sender into an ARP frame changes the sender and nothing
/// else.
proof fn lemma_forwarded_frame(s: Seq<u8>, mac: [u8; 6], ip: u32)
    requires
        in_bounds(s.len() as int, l3_offset(), ARP_HDR_LEN as int),
    ensures
        ({
            let t = store_be32(store_mac(s, l3_offset() + 8, mac), l3_offset() + 14, ip);
            let before = arp_at(s, l3_offset());
            let after = arp_at(t, l3_offset());
            &&& t.len() == s.len()
            &&& after.sha == mac
            &&& after.spa == ip
            &&& after.oper == before.oper
            &&& after.plen == before.plen
            &&& after.tpa == before.tpa
            &&& after.tha == before.tha
        }),
{
    let s1 = store_mac(s, l3_offset() + 8, mac);
    let t = store_be32(s1, l3_offset() + 14, ip);
    crate::packet::lemma_store_mac(s, l3_offset() + 8, mac);
    crate::packet::lemma_store_be32(s1, l3_offset() + 14, ip);
    assert(arp_at(t, l3_offset()).sha =~= mac);
    assert(arp_at(t, l3_offset()).tha =~= arp_at(s, l3_offset()).tha);
}

/// A request for an address that the relay has not resolved is sent out of
/// the uplink under the uplink's identity, and the relay notes who asked.
pub proof fn lemma_unresolved_request_is_forwarded(
    ifaces: IfaceMap,
    client: ClientMap,
    st: RelayModel,
    request: Seq<u8>,
    requester: [u8; 6],
    target: u32,
)
    requires
        st.well_formed(),
        is_arp_request_for(request, requester, target),
        requester != ifaces.eth_iface.mac,
        arp_lookup(st.arp_cache, target) is None,
        arp_takes(st.client_requests, st.requests_capacity, target),
    ensures
        ({
            let step = eth_step(ifaces, client, st, request);
            let sent = arp_at(step.frame, l3_offset());
            &&& step.verdict == Ok::<Disposition, PacketError>(
                Disposition::Redirect(ifaces.eth_iface.idx),
            )
            &&& step.state.well_formed()
            &&& arp_lookup(step.state.client_requests, target) == Some(requester)
            &&& step.state.arp_cache == st.arp_cache
            &&& step.state.arp_capacity == st.arp_capacity
            &&& step.state.mode == st.mode
            &&& sent.oper == ARP_REQUEST
            &&& sent.tpa == target
            &&& sent.sha == ifaces.eth_iface.mac
            &&& sent.spa == ifaces.eth_iface.ip
        }),
{
    crate::arp_cache::lemma_arp_insert_well_formed(
        st.client_requests,
        st.requests_capacity,
        target,
        requester,
    );
    lemma_forwarded_frame(request, ifaces.eth_iface.mac, ifaces.eth_iface.ip);
}

/// The answer to a request that the relay has forwarded is handed to the one
/// who asked, and the relay remembers it.
pub proof fn lemma_reply_is_restored_and_cached(
    ifaces: IfaceMap,
    client: ClientMap,
    st: RelayModel,
    reply: Seq<u8>,
    owner: [u8; 6],
    target: u32,
    requester: [u8; 6],
)
    requires
        st.well_formed(),
        is_arp_reply_about(reply, owner, target, ifaces.eth_iface.mac),
        owner != ifaces.eth_iface.mac,
        arp_lookup(st.client_requests, target) == Some(requester),
        arp_takes(st.arp_cache, st.arp_capacity, target),
    ensures
        ({
            let step = eth_step(ifaces, client, st, reply);
            &&& step.verdict is Ok
            &&& step.verdict->Ok_0 == to_client(ifaces, st.mode, reply).0
            &&& step.state.well_formed()
            &&& arp_lookup(step.state.arp_cache, target) == Some(owner)
            &&& step.state.client_requests == st.client_requests
            &&& step.state.requests_capacity == st.requests_capacity
            &&& step.state.mode == st.mode
            &&& eth_at(step.frame).dst_addr == requester
            &&& arp_at(step.frame, l3_offset()).tha == requester
            &&& arp_at(step.frame, l3_offset()).sha == owner
            &&& arp_at(step.frame, l3_offset()).spa == target
        }),
{
    let step = eth_step(ifaces, client, st, reply);
    crate::arp_cache::lemma_arp_insert_well_formed(st.arp_cache, st.arp_capacity, target, owner);
    let restored = store_mac(store_mac(reply, 0, requester), l3_offset() + 18, requester);
    lemma_to_client_keeps_payload(ifaces, st.mode, restored);
    assert(eth_at(restored).dst_addr =~= requester);
    assert(arp_at(restored, l3_offset()).tha =~= requester);
    assert(arp_at(restored, l3_offset()).sha =~= owner);
}

/// A request for an address that the relay has resolved is answered on the
/// spot: the frame becomes the reply, with sender and target in each other's
/// place and the resolved hardware address as sender, and leaves by the
/// radio selected. Nothing is noted as forwarded.
pub proof fn lemma_resolved_request_is_answered(
    ifaces: IfaceMap,
    client: ClientMap,
    st: RelayModel,
    request: Seq<u8>,
    requester: [u8; 6],
    target: u32,
    owner: [u8; 6],
)
    requires
        is_arp_request_for(request, requester, target),
        requester != ifaces.eth_iface.mac,
        arp_lookup(st.arp_cache, target) == Some(owner),
    ensures
        ({
            let step = eth_step(ifaces, client, st, request);
            &&& step.verdict is Ok
            &&& step.verdict->Ok_0 == to_client(ifaces, st.mode, request).0
            &&& step.verdict->Ok_0 is Redirect
            &&& arp_at(step.frame, l3_offset()) == generate_arp_resp_spec(
                arp_at(request, l3_offset()),
                owner,
                target,
            )
            &&& step.state.client_requests == st.client_requests
            &&& step.state.arp_cache == st.arp_cache
        }),
{
    let reply = generate_arp_resp_spec(arp_at(request, l3_offset()), owner, target);
    let answered = store_arp(request, l3_offset(), reply);
    crate::headers::lemma_store_arp(request, l3_offset(), reply);
    lemma_to_client_keeps_payload(ifaces, st.mode, answered);
}

/// The proxy's round trip. A client's request for an address that the relay
/// has not resolved is forwarded, and the relay notes who asked. The answer
/// that comes back is handed to the client and remembered. From then on the
/// same request is answered by the relay itself, with the hardware address
/// from the answer, and is not forwarded again.
pub proof fn lemma_proxy_round_trip(
    ifaces: IfaceMap,
    client: ClientMap,
    st: RelayModel,
    request: Seq<u8>,
    reply: Seq<u8>,
    requester: [u8; 6],
    owner: [u8; 6],
    target: u32,
)
    requires
        st.well_formed(),
        is_arp_request_for(request, requester, target),
        is_arp_reply_about(reply, owner, target, ifaces.eth_iface.mac),
        requester != ifaces.eth_iface.mac,
        owner != ifaces.eth_iface.mac,
        arp_lookup(st.arp_cache, target) is None,
        st.arp_cache.len() < st.arp_capacity,
        arp_takes(st.client_requests, st.requests_capacity, target),
    ensures
        ({
            let forwarded = eth_step(ifaces, client, st, request);
            let answered = eth_step(ifaces, client, forwarded.state, reply);
            let served = eth_step(ifaces, client, answered.state, request);
            &&& forwarded.verdict == Ok::<Disposition, PacketError>(
                Disposition::Redirect(ifaces.eth_iface.idx),
            )
            &&& arp_lookup(forwarded.state.client_requests, target) == Some(requester)
            &&& answered.verdict is Ok && answered.verdict->Ok_0 is Redirect
            &&& arp_at(answered.frame, l3_offset()).tha == requester
            &&& arp_lookup(answered.state.arp_cache, target) == Some(owner)
            &&& served.verdict is Ok && served.verdict->Ok_0 is Redirect
            &&& served.verdict->Ok_0 == to_client(ifaces, st.mode, request).0
            &&& arp_at(served.frame, l3_offset()) == generate_arp_resp_spec(
                arp_at(request, l3_offset()),
                owner,
                target,
            )
            &&& served.state.client_requests == answered.state.client_requests
        }),
{
    lemma_unresolved_request_is_forwarded(ifaces, client, st, request, requester, target);
    let forwarded = eth_step(ifaces, client, st, request);
    lemma_reply_is_restored_and_cached(
        ifaces,
        client,
        forwarded.state,
        reply,
        owner,
        target,
        requester,
    );
    lemma_to_client_keeps_payload(ifaces, st.mode, reply);
    let answered = eth_step(ifaces, client, forwarded.state, reply);
    lemma_resolved_request_is_answered(
        ifaces,
        client,
        answered.state,
        request,
        requester,
        target,
        owner,
    );
}

/// The 16-bit words of the frame's IPv4 header, the checksum left out.
pub open spec fn ipv4_header_words(s: Seq<u8>) -> Seq<u16> {
    let o = l3_offset();
    seq![
        be16(s, o),
        be16(s, o + 2),
        be16(s, o + 4),
        be16(s, o + 6),
        be16(s, o + 8),
        be16(s, o + 12),
        be16(s, o + 14),
        be16(s, o + 16),
        be16(s, o + 18),
    ]
}

/// Whether the frame's IPv4 header carries the checksum of its words.
pub open spec fn ipv4_checksum_is_valid(s: Seq<u8>) -> bool {
    ipv4_at(s, l3_offset()).check == internet_checksum(ipv4_header_words(s))
}

/// The two halves of a stored address are the words that the checksum sums.
proof fn lemma_address_words(v: u32)
    ensures
        (v / 16777216) * 256 + (v / 65536) % 256 == hi16(v),
        ((v / 256) % 256) * 256 + v % 256 == lo16(v),
        hi16(v) * 0x10000 + lo16(v) == v,
{
    assert((v / 16777216) * 256 + (v / 65536) % 256 == v / 65536) by (bit_vector);
    assert(((v / 256) % 256) * 256 + v % 256 == v % 65536) by (bit_vector);
}

/// Rewriting an address keeps the header checksum valid: a frame whose IPv4
/// header carries a valid checksum carries a valid one again after an
/// address in it has been changed.
#[verifier::spinoff_prover]
#[verifier::rlimit(40)]
pub proof fn lemma_readdressed_header_checksum_is_valid(s: Seq<u8>, addr_off: int, new_addr: u32)
    requires
        in_bounds(s.len() as int, l3_offset(), IPV4_HDR_LEN as int),
        l4_in_bounds(s, ipv4_at(s, l3_offset()).proto),
        addr_off == l3_offset() + 12 || addr_off == l3_offset() + 16,
        ipv4_at(s, l3_offset()).vihl != 0,
        ipv4_checksum_is_valid(s),
    ensures
        ipv4_checksum_is_valid(readdressed(s, addr_off, new_addr)),
{
    let o = l3_offset();
    let ip = ipv4_at(s, o);
    let old_addr = be32(s, addr_off);
    let s1 = l4_corrected(s, ip.proto, old_addr, new_addr);
    let check = csum_replace_addr(ip.check, old_addr, new_addr);
    let s2 = store_be16(s1, o + 10, check);
    let t = store_be32(s2, addr_off, new_addr);
    let words = ipv4_header_words(s);
    let idx: int = if addr_off == o + 12 {
        5
    } else {
        7
    };
    assert(s1.len() == s.len());
    assert(forall|k: int| o <= k < o + 20 ==> s1[k] == s[k]);
    assert(forall|k: int| o <= k < o + 20 && k != o + 10 && k != o + 11 ==> s2[k] == s[k]);
    crate::packet::lemma_store_be32(s2, addr_off, new_addr);
    lemma_address_words(new_addr);
    lemma_address_words(old_addr);
    assert(be16(t, addr_off) == hi16(new_addr));
    assert(be16(t, addr_off + 2) == lo16(new_addr));
    assert(be16(t, o + 10) == check);
    assert(addr_in(words, idx) == old_addr) by {
        assert(be16(s, addr_off) as int * 0x10000 + be16(s, addr_off + 2) as int == be32(
            s,
            addr_off,
        ));
    }
    assert(ipv4_header_words(t) =~= with_addr(words, idx, new_addr));
    assert(with_addr(words, idx, new_addr)[0] != 0) by {
        assert(words[0] == be16(s, o));
        assert(s[o] as int * 256 <= be16(s, o));
    }
    crate::csum::lemma_incremental_update_matches_recomputation(words, idx, new_addr);
}

/// Whether `s` is an IPv4 frame that the relay hands to the client when it
/// arrives on the uplink: a datagram of a protocol that the relay translates,
/// with its transport header in the frame, and not addressed to the relay
/// itself.
pub open spec fn is_for_client(ifaces: IfaceMap, s: Seq<u8>) -> bool {
    &&& in_bounds(s.len() as int, l3_offset(), IPV4_HDR_LEN as int)
    &&& eth_at(s).ether_type == ETHERTYPE_IPV4
    &&& is_relayed(ipv4_at(s, l3_offset()).proto)
    &&& l4_in_bounds(s, ipv4_at(s, l3_offset()).proto)
    &&& !is_local(ifaces, ipv4_at(s, l3_offset()).dst_addr)
}

/// Writing hardware addresses into the Ethernet header leaves the IPv4
/// header as it is.
proof fn lemma_eth_writes_keep_ipv4(s: Seq<u8>, off: int, mac: [u8; 6])
    requires
        in_bounds(s.len() as int, l3_offset(), IPV4_HDR_LEN as int),
        off == 0 || off == 6,
    ensures
        store_mac(s, off, mac).len() == s.len(),
        ipv4_at(store_mac(s, off, mac), l3_offset()) == ipv4_at(s, l3_offset()),
        ipv4_header_words(store_mac(s, off, mac)) == ipv4_header_words(s),
        eth_at(store_mac(s, off, mac)).ether_type == eth_at(s).ether_type,
        off == 0 ==> eth_at(store_mac(s, off, mac)).dst_addr == mac,
        off == 6 ==> eth_at(store_mac(s, off, mac)).dst_addr == eth_at(s).dst_addr,
{
    let t = store_mac(s, off, mac);
    crate::packet::lemma_store_mac(s, off, mac);
    assert(ipv4_header_words(t) =~= ipv4_header_words(s));
    if off == 0 {
        assert(eth_at(t).dst_addr =~= mac);
    } else {
        assert(eth_at(t).dst_addr =~= eth_at(s).dst_addr);
    }
}

/// The destination of a readdressed frame is the new address, and the
/// frame keeps its length.
proof fn lemma_readdressed_destination(s: Seq<u8>, new_addr: u32)
    requires
        in_bounds(s.len() as int, l3_offset(), IPV4_HDR_LEN as int),
        l4_in_bounds(s, ipv4_at(s, l3_offset()).proto),
    ensures
        readdressed(s, l3_offset() + 16, new_addr).len() == s.len(),
        ipv4_at(readdressed(s, l3_offset() + 16, new_addr), l3_offset()).dst_addr == new_addr,
        ipv4_at(readdressed(s, l3_offset() + 16, new_addr), l3_offset()).src_addr == ipv4_at(
            s,
            l3_offset(),
        ).src_addr,
{
    let o = l3_offset();
    let ip = ipv4_at(s, o);
    let old_addr = be32(s, o + 16);
    let s1 = l4_corrected(s, ip.proto, old_addr, new_addr);
    let s2 = store_be16(s1, o + 10, csum_replace_addr(ip.check, old_addr, new_addr));
    assert(s1.len() == s.len());
    assert(forall|k: int| o <= k < o + 20 ==> s1[k] == s[k]);
    crate::packet::lemma_store_be32(s2, o + 16, new_addr);
}

/// What arrives on the uplink for anyone but the relay itself reaches the
/// client: the datagram leaves by the radio selected, radio A for the light
/// medium and radio B for the radio medium, addressed to the client's
/// address and hardware address, and a header checksum that was valid is
/// valid for the rewritten header.
pub proof fn lemma_uplink_traffic_reaches_client(
    ifaces: IfaceMap,
    client: ClientMap,
    st: RelayModel,
    s: Seq<u8>,
)
    requires
        is_for_client(ifaces, s),
    ensures
        ({
            let step = eth_step(ifaces, client, st, s);
            &&& step.verdict == Ok::<Disposition, PacketError>(
                match st.mode.medium_spec() {
                    MediumSelection::Light => Disposition::Redirect(ifaces.wifi_iface.idx),
                    MediumSelection::Radio => Disposition::Redirect(ifaces.plc_iface.idx),
                },
            )
            &&& step.frame.len() == s.len()
            &&& ipv4_at(step.frame, l3_offset()).dst_addr == client.ip
            &&& ipv4_at(step.frame, l3_offset()).src_addr == ipv4_at(s, l3_offset()).src_addr
            &&& eth_at(step.frame).dst_addr == client.mac
            &&& ipv4_at(s, l3_offset()).vihl != 0 && ipv4_checksum_is_valid(s)
                ==> ipv4_checksum_is_valid(step.frame)
            &&& step.state == (RelayModel { mac_cache: eth_at(s).src_addr, ..st })
        }),
{
    let o = l3_offset();
    let moved = readdressed(s, o + 16, client.ip);
    let rewritten = store_mac(moved, 0, client.mac);
    lemma_readdressed_destination(s, client.ip);
    lemma_eth_writes_keep_ipv4(moved, 0, client.mac);
    lemma_eth_writes_keep_ipv4(rewritten, 6, ifaces.plc_iface.mac);
    if ipv4_at(s, o).vihl != 0 && ipv4_checksum_is_valid(s) {
        lemma_readdressed_header_checksum_is_valid(s, o + 16, client.ip);
    }
}

} // verus!
