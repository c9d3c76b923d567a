//! Networks.

pub mod any;
pub mod bitstring;
pub mod bitstring_v6;
pub mod combined;
pub mod direct;
pub mod direct_v6;
pub mod from_str;

pub use self::any::AnyIpCidr;
use vstd::prelude::*;
use crate::address::{Ipv4Addr, Ipv6Addr};

verus! {

/// `Cidr` type representing an IPv4 network.
///
/// Ordering based on lexicographic bitstring representation.
#[derive(Clone, Copy, PartialEq, Eq, Structural, Ord, Hash, Debug)]
pub struct Ipv4Cidr {
    pub(crate) address: Ipv4Addr,
    pub(crate) network_length: u8,
}

/// `Cidr` type representing an IPv6 network.
///
/// Ordering based on lexicographic bitstring representation.
#[derive(Clone, Copy, PartialEq, Eq, Structural, Ord, Hash, Debug)]
pub struct Ipv6Cidr {
    pub(crate) address: Ipv6Addr,
    pub(crate) network_length: u8,
}

/// `Cidr` type representing either an IPv4 or an IPv6 network.
#[derive(Clone, Copy, PartialEq, Eq, Structural, Ord, Hash, Debug)]
pub enum IpCidr {
    /// IPv4 network
    V4(Ipv4Cidr),
    /// IPv6 network
    V6(Ipv6Cidr),
}

} // verus!
