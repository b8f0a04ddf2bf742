//! The identities of the relay's interfaces.
//!
//! The control plane looks each interface up once, when it starts, and hands
//! the packet path what it found. What the system says of an interface is
//! turned into an identity here, or into the reason why there is none.

use vstd::prelude::*;
use crate::packet::be32;

verus! {

/// What the relay knows of one of its interfaces.
#[derive(Clone, Copy, Debug, PartialEq, Eq)]
pub struct Iface {
    /// Hardware address.
    pub mac: [u8; 6],
    /// Handle by which frames are redirected to the interface.
    pub idx: u32,
    /// IPv4 address, as a number in host order.
    pub ip: u32,
}

/// The relay's three interfaces.
#[derive(Clone, Copy, Debug, PartialEq, Eq)]
pub struct IfaceMap {
    /// Radio A, the light medium.
    pub wifi_iface: Iface,
    /// The wired uplink.
    pub eth_iface: Iface,
    /// Radio B, the radio medium.
    pub plc_iface: Iface,
}

/// The first address that the system lists for an interface.
#[derive(Clone, Copy, Debug, PartialEq, Eq)]
pub enum IfaceAddr {
    /// An IPv4 address, by its four octets.
    V4([u8; 4]),
    /// An IPv6 address.
    V6,
}

/// Why an interface has no identity.
#[derive(Clone, Copy, Debug, PartialEq, Eq, Structural)]
pub enum IfaceError {
    /// The system knows no index for the name.
    NoIndex,
    /// The system knows no hardware address for the name.
    NoMac,
    /// The system lists no address under the name.
    NoAddress,
    /// The first address listed under the name is not an IPv4 address.
    NotIpv4,
}

/// The index that the system's answer stands for: zero is its way of saying
/// that there is no interface of that name.
pub open spec fn index_of(raw: u32) -> Option<u32> {
    if raw == 0 {
        None
    } else {
        Some(raw)
    }
}

/// Reads the system's answer to the question for an interface's index.
pub fn iface_nametoindex(raw: u32) -> (idx: Option<u32>)
    ensures
        idx == index_of(raw),
{
    if raw == 0 {
        None
    } else {
        Some(raw)
    }
}

/// The identity that the three findings make, or the first of them that is
/// missing.
pub open spec fn identity_of(idx: Option<u32>, mac: Option<[u8; 6]>, addr: Option<IfaceAddr>) -> Result<
    Iface,
    IfaceError,
> {
    match (idx, mac, addr) {
        (None, _, _) => Err(IfaceError::NoIndex),
        (Some(_), None, _) => Err(IfaceError::NoMac),
        (Some(_), Some(_), None) => Err(IfaceError::NoAddress),
        (Some(_), Some(_), Some(IfaceAddr::V6)) => Err(IfaceError::NotIpv4),
        (Some(idx), Some(mac), Some(IfaceAddr::V4(octets))) => Ok(
            Iface { mac, idx, ip: be32(octets@, 0) },
        ),
    }
}

/// Makes an interface's identity from what the system says of it: its
/// index, its hardware address and the first address listed under its name.
pub fn iface_by_name(idx: Option<u32>, mac: Option<[u8; 6]>, addr: Option<IfaceAddr>) -> (r: Result<
    Iface,
    IfaceError,
>)
    ensures
        r == identity_of(idx, mac, addr),
{
    let idx = match idx {
        Some(idx) => idx,
        None => {
            return Err(IfaceError::NoIndex);
        },
    };
    let mac = match mac {
        Some(mac) => mac,
        None => {
            return Err(IfaceError::NoMac);
        },
    };
    match addr {
        None => Err(IfaceError::NoAddress),
        Some(IfaceAddr::V6) => Err(IfaceError::NotIpv4),
        Some(IfaceAddr::V4(octets)) => Ok(
            Iface {
                mac,
                idx,
                ip: (octets[0] as u32) * 16777216 + (octets[1] as u32) * 65536 + (octets[2] as u32)
                    * 256 + (octets[3] as u32),
            },
        ),
    }
}

} // verus!
