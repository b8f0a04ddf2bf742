//! Decoder for the fixed part of a BOOTP/DHCP message and its first option.
//!
//! The fixed part is 236 bytes of BOOTP fields followed by the four-byte
//! magic cookie. The message type is looked for in the first option only, in
//! the form in which servers send it: code 53, length 1, then the type.

use vstd::prelude::*;
use crate::packet::{be16, be32, check_bounds, in_bounds, read_be16, read_be32, PacketError};

verus! {

/// Length of the fixed part of a DHCP message, magic cookie included.
pub const DHCP_HDR_LEN: usize = 240;

/// Length of the message-type option.
pub const DHCP_OPTION_LEN: usize = 3;

/// The magic cookie that tells a DHCP message from plain BOOTP.
pub const DHCP_MAGIC: u32 = 0x63825363;

/// UDP port of a DHCP server.
pub const DHCP_SERVER_PORT: u16 = 67;

/// UDP port of a DHCP client.
pub const DHCP_CLIENT_PORT: u16 = 68;

/// Code of the message-type option.
pub const DHCP_OPT_MESSAGE_TYPE: u8 = 0x35;

/// Message type of an acknowledgement.
pub const DHCP_ACK: u8 = 0x05;

/// The fixed part of a DHCP message.
#[derive(Clone, Copy, Debug, PartialEq, Eq)]
pub struct DhcpHdr {
    /// Message op code.
    pub op: u8,
    /// Hardware address type.
    pub htype: u8,
    /// Hardware address length.
    pub hlen: u8,
    /// Relay hops.
    pub hops: u8,
    /// Transaction id.
    pub xid: u32,
    /// Seconds since the client began.
    pub secs: u16,
    /// Flags.
    pub flags: u16,
    /// Address the client already has.
    pub ciaddr: u32,
    /// Address offered or assigned to the client.
    pub yiaddr: u32,
    /// Address of the next server.
    pub siaddr: u32,
    /// Address of the relay agent.
    pub giaddr: u32,
    /// Client hardware address, padded to 16 bytes.
    pub chaddr: [u8; 16],
    /// Server host name.
    pub sname: [u8; 64],
    /// Boot file name.
    pub file: [u8; 128],
    /// Magic cookie.
    pub magic: u32,
}

/// A DHCP option with a value of one byte.
#[derive(Clone, Copy, Debug, PartialEq, Eq)]
pub struct DhcpOption {
    /// Option code.
    pub code: u8,
    /// Length of the value.
    pub len: u8,
    /// The value.
    pub value: u8,
}

impl DhcpHdr {
    /// Whether `self` is what the 240 bytes of `s` from `off` hold.
    pub open spec fn is_at(self, s: Seq<u8>, off: int) -> bool {
        &&& self.op == s[off]
        &&& self.htype == s[off + 1]
        &&& self.hlen == s[off + 2]
        &&& self.hops == s[off + 3]
        &&& self.xid == be32(s, off + 4)
        &&& self.secs == be16(s, off + 8)
        &&& self.flags == be16(s, off + 10)
        &&& self.ciaddr == be32(s, off + 12)
        &&& self.yiaddr == be32(s, off + 16)
        &&& self.siaddr == be32(s, off + 20)
        &&& self.giaddr == be32(s, off + 24)
        &&& self.chaddr@ == s.subrange(off + 28, off + 44)
        &&& self.sname@ == s.subrange(off + 44, off + 108)
        &&& self.file@ == s.subrange(off + 108, off + 236)
        &&& self.magic == be32(s, off + 236)
    }

    /// The client's hardware address: the first six bytes of `chaddr`.
    pub open spec fn client_mac_spec(self) -> [u8; 6] {
        [
            self.chaddr[0],
            self.chaddr[1],
            self.chaddr[2],
            self.chaddr[3],
            self.chaddr[4],
            self.chaddr[5],
        ]
    }

    /// The client's hardware address: the first six bytes of `chaddr`.
    pub fn client_mac(&self) -> (mac: [u8; 6])
        ensures
            mac == self.client_mac_spec(),
    {
        let mac = [
            self.chaddr[0],
            self.chaddr[1],
            self.chaddr[2],
            self.chaddr[3],
            self.chaddr[4],
            self.chaddr[5],
        ];
        assert(mac =~= self.client_mac_spec());
        mac
    }
}

impl DhcpOption {
    /// Whether the option says that the message is an acknowledgement.
    pub open spec fn is_ack_spec(self) -> bool {
        self.code == DHCP_OPT_MESSAGE_TYPE && self.len == 1 && self.value == DHCP_ACK
    }

    /// Whether the option says that the message is an acknowledgement.
    pub fn is_ack(&self) -> (b: bool)
        ensures
            b == self.is_ack_spec(),
    {
        self.code == DHCP_OPT_MESSAGE_TYPE && self.len == 1 && self.value == DHCP_ACK
    }
}

/// The option that the three bytes of `s` from `off` hold.
pub open spec fn option_at(s: Seq<u8>, off: int) -> DhcpOption {
    DhcpOption { code: s[off], len: s[off + 1], value: s[off + 2] }
}

/// Copies `N` bytes out of the frame.
pub fn read_bytes<const N: usize>(frame: &[u8], i: usize) -> (a: [u8; N])
    requires
        i + N <= frame@.len(),
    ensures
        a@ == frame@.subrange(i as int, i + N),
{
    let mut a = [0u8;N];
    let mut k: usize = 0;
    assert(frame@.len() == frame.len());
    while k < N
        invariant
            k <= N,
            i + N <= frame@.len(),
            frame@.len() <= usize::MAX,
            forall|j: int| 0 <= j < k ==> a@[j] == frame@[i + j],
        decreases N - k,
    {
        a[k] = frame[i + k];
        k += 1;
    }
    assert(a@ =~= frame@.subrange(i as int, i + N));
    a
}

/// Decodes the fixed part of a DHCP message at `off`.
pub fn decode_dhcp(frame: &[u8], off: usize) -> (r: Result<DhcpHdr, PacketError>)
    ensures
        r is Ok <==> in_bounds(frame@.len() as int, off as int, DHCP_HDR_LEN as int),
        r matches Ok(h) ==> h.is_at(frame@, off as int),
        r matches Err(e) ==> e == PacketError::OutOfBounds,
{
    match check_bounds(frame, off, DHCP_HDR_LEN) {
        Err(e) => Err(e),
        Ok(()) => Ok(
            DhcpHdr {
                op: frame[off],
                htype: frame[off + 1],
                hlen: frame[off + 2],
                hops: frame[off + 3],
                xid: read_be32(frame, off + 4),
                secs: read_be16(frame, off + 8),
                flags: read_be16(frame, off + 10),
                ciaddr: read_be32(frame, off + 12),
                yiaddr: read_be32(frame, off + 16),
                siaddr: read_be32(frame, off + 20),
                giaddr: read_be32(frame, off + 24),
                chaddr: read_bytes::<16>(frame, off + 28),
                sname: read_bytes::<64>(frame, off + 44),
                file: read_bytes::<128>(frame, off + 108),
                magic: read_be32(frame, off + 236),
            },
        ),
    }
}

/// Decodes the option at `off`.
pub fn decode_option(frame: &[u8], off: usize) -> (r: Result<DhcpOption, PacketError>)
    ensures
        r == if in_bounds(frame@.len() as int, off as int, DHCP_OPTION_LEN as int) {
            Ok(option_at(frame@, off as int))
        } else {
            Err(PacketError::OutOfBounds)
        },
{
    match check_bounds(frame, off, DHCP_OPTION_LEN) {
        Err(e) => Err(e),
        Ok(()) => Ok(DhcpOption { code: frame[off], len: frame[off + 1], value: frame[off + 2] }),
    }
}

} // verus!
