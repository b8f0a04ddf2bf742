//! The egress filter: the snooper, with a blocklist of destinations.
//!
//! On its way out every IPv4 frame is shown to the snooper and then held
//! against a list of addresses that nothing may be sent to. What becomes of
//! each IPv4 frame is put on record. The filter stands in the path: a frame
//! that ends inside a header that had to be read is dropped.

use vstd::prelude::*;
use crate::bindings::{BindingTable, IpMac, KeyValue};
use crate::headers::{
    decode_eth, decode_ipv4, eth_at, eth_hdr_len, ipv4_at, l3_offset, ETHERTYPE_IPV4,
    ETH_HDR_LEN, IPV4_HDR_LEN,
};
use crate::packet::{in_bounds, Disposition, PacketError};
use crate::snoop::{snoop_log, snoop_report, try_tc_ringbuf};

verus! {

/// The traffic-control action that discards a frame.
pub const TC_ACT_SHOT: i32 = 2;

/// The traffic-control action that lets a frame go on.
pub const TC_ACT_PIPE: i32 = 3;

/// The record of what became of one IPv4 frame.
#[derive(Clone, Copy, Debug, PartialEq, Eq)]
pub struct PacketLog {
    /// The frame's destination, as a number in host order.
    pub ipv4_address: u32,
    /// The traffic-control action taken.
    pub action: i32,
}

/// What the filter makes of a frame.
#[derive(Clone, Copy, Debug, PartialEq, Eq)]
pub struct EgressReport {
    /// What is to happen to the frame.
    pub action: Disposition,
    /// The record of it, for an IPv4 frame.
    pub log: Option<PacketLog>,
    /// The binding that the snooper has newly learned from the frame.
    pub learned: Option<KeyValue>,
}

/// The constant `aya_ebpf::bindings::TC_ACT_SHOT`, which the crate takes
/// from the kernel's headers, where it is 2. Trusted.
#[verifier::external_body]
pub(crate) fn tc_act_shot() -> (code: i32)
    ensures
        code == TC_ACT_SHOT,
{
    aya_ebpf::bindings::TC_ACT_SHOT
}

/// The constant `aya_ebpf::bindings::TC_ACT_PIPE`, which the crate takes
/// from the kernel's headers, where it is 3. Trusted.
#[verifier::external_body]
pub(crate) fn tc_act_pipe() -> (code: i32)
    ensures
        code == TC_ACT_PIPE,
{
    aya_ebpf::bindings::TC_ACT_PIPE
}

/// The traffic-control action that carries out a decision to block or not.
pub open spec fn tc_action_spec(blocked: bool) -> i32 {
    if blocked {
        TC_ACT_SHOT
    } else {
        TC_ACT_PIPE
    }
}

/// What happens to a frame by a decision to block or not.
pub open spec fn block_disposition(blocked: bool) -> Disposition {
    if blocked {
        Disposition::Drop
    } else {
        Disposition::Pass
    }
}

/// Whether `address` is on the blocklist.
pub fn block_ip(blocklist: &[u32], address: u32) -> (blocked: bool)
    ensures
        blocked == blocklist@.contains(address),
{
    let n = blocklist.len();
    let mut i: usize = 0;
    while i < n
        invariant
            n == blocklist@.len(),
            i <= n,
            forall|k: int| 0 <= k < i ==> blocklist@[k] != address,
        decreases n - i,
    {
        if blocklist[i] == address {
            return true;
        }
        i += 1;
    }
    false
}

/// What the filter makes of the frame `s`, given the bindings in `log` and
/// the blocklist.
pub open spec fn egress_report(
    log: Seq<IpMac>,
    capacity: nat,
    blocklist: Seq<u32>,
    s: Seq<u8>,
) -> Result<EgressReport, PacketError> {
    if !in_bounds(s.len() as int, 0, ETH_HDR_LEN as int) {
        Err(PacketError::OutOfBounds)
    } else if eth_at(s).ether_type != ETHERTYPE_IPV4 {
        Ok(EgressReport { action: Disposition::Pass, log: None, learned: None })
    } else if !in_bounds(s.len() as int, l3_offset(), IPV4_HDR_LEN as int) {
        Err(PacketError::OutOfBounds)
    } else {
        match snoop_report(log, capacity, s) {
            Err(e) => Err(e),
            Ok(learned) => {
                let destination = ipv4_at(s, l3_offset()).dst_addr;
                let blocked = blocklist.contains(destination);
                Ok(
                    EgressReport {
                        action: block_disposition(blocked),
                        log: Some(
                            PacketLog {
                                ipv4_address: destination,
                                action: tc_action_spec(blocked),
                            },
                        ),
                        learned,
                    },
                )
            },
        }
    }
}

/// Shows a frame to the snooper and holds its destination against the
/// blocklist.
pub fn try_tc_egress(table: &mut BindingTable, blocklist: &[u32], frame: &[u8]) -> (r: Result<
    EgressReport,
    PacketError,
>)
    ensures
        r == egress_report(old(table)@, old(table).cap(), blocklist@, frame@),
        final(table)@ == snoop_log(old(table)@, old(table).cap(), frame@),
        final(table).cap() == old(table).cap(),
{
    let ethhdr = decode_eth(frame)?;
    if ethhdr.ether_type != ETHERTYPE_IPV4 {
        return Ok(EgressReport { action: Disposition::Pass, log: None, learned: None });
    }
    let ipv4hdr = decode_ipv4(frame, eth_hdr_len())?;
    let learned = try_tc_ringbuf(table, frame)?;
    let destination = ipv4hdr.dst_addr;
    let report = if block_ip(blocklist, destination) {
        EgressReport {
            action: Disposition::Drop,
            log: Some(PacketLog { ipv4_address: destination, action: tc_act_shot() }),
            learned,
        }
    } else {
        EgressReport {
            action: Disposition::Pass,
            log: Some(PacketLog { ipv4_address: destination, action: tc_act_pipe() }),
            learned,
        }
    };
    Ok(report)
}

/// The filter's hook: a frame that could not be read is dropped, and there
/// is nothing to put on record for it.
pub fn tc_egress(table: &mut BindingTable, blocklist: &[u32], frame: &[u8]) -> (report:
    EgressReport)
    ensures
        report == match egress_report(old(table)@, old(table).cap(), blocklist@, frame@) {
            Ok(r) => r,
            Err(_) => EgressReport { action: Disposition::Drop, log: None, learned: None },
        },
        final(table)@ == snoop_log(old(table)@, old(table).cap(), frame@),
        final(table).cap() == old(table).cap(),
{
    match try_tc_egress(table, blocklist, frame) {
        Ok(report) => report,
        Err(_) => EgressReport { action: Disposition::Drop, log: None, learned: None },
    }
}

} // verus!
