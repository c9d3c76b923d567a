//! Hosts within networks.

pub mod bitstring;
pub mod bitstring_v6;
pub mod combined;
pub mod direct;
pub mod direct_v6;
pub mod from_str;
pub mod ops;
pub mod ops_combined;
pub mod ops_u32;
pub mod ops_v6;

use vstd::prelude::*;
use crate::address::{Ipv4Addr, Ipv6Addr};

verus! {

/// `Inet` type representing an IPv4 host within a network.
///
/// Ordered by address first, then by network length.
#[derive(Clone, Copy, PartialEq, Eq, Structural, Ord, Hash, Debug)]
pub struct Ipv4Inet {
    pub(crate) address: Ipv4Addr,
    pub(crate) network_length: u8,
}

/// `Inet` type representing an IPv6 host within a network.
///
/// Ordered by address first, then by network length.
#[derive(Clone, Copy, PartialEq, Eq, Structural, Ord, Hash, Debug)]
pub struct Ipv6Inet {
    pub(crate) address: Ipv6Addr,
    pub(crate) network_length: u8,
}

/// `Inet` type representing either an IPv4 or an IPv6 host within a
/// network.
#[derive(Clone, Copy, PartialEq, Eq, Structural, Ord, Hash, Debug)]
pub enum IpInet {
    /// IPv4 host within network
    V4(Ipv4Inet),
    /// IPv6 host within network
    V6(Ipv6Inet),
}

} // verus!
