//! Defence of a link segment against ARP cache poisoning.
//!
//! Trusted bindings between hardware and IPv4 addresses are learned from
//! the DHCP leases that pass by, and ARP traffic is then held to them: a host
//! cannot claim by ARP an address that it was never leased.
//!
//! - [`packet`] gives bounded access to the bytes of a frame;
//! - [`headers`] and [`dhcp`] decode the headers;
//! - [`csum`] corrects checksums for rewritten addresses;
//! - [`bindings`] holds the table of bindings;
//! - [`snoop`] learns bindings from DHCP acknowledgements;
//! - [`guard`] judges ARP traffic by the bindings;
//! - [`egress`] adds a blocklist of destinations to the snooper;
//! - [`arp_cache`], [`iface`] and [`relay`] make the relay between a wired
//!   uplink and two radios, which proxies ARP and rewrites addresses;
//! - [`probe`] asks a host for its hardware address.
//!
//! Every function works on plain values: a frame is a slice of bytes, state
//! is handed in by the caller, and the result says what is to happen to the
//! frame.

pub mod packet;
pub mod headers;
pub mod csum;
pub mod dhcp;
pub mod bindings;
pub mod snoop;
pub mod guard;
pub mod egress;
pub mod arp_cache;
pub mod iface;
pub mod probe;
pub mod relay;
