//! Address families.

use vstd::prelude::*;
use crate::address::{IpAddr, Ipv4Addr, Ipv6Addr};
use crate::internal_traits::PrivUnspecAddress;

verus! {

/// The family of an IP address.
#[derive(Clone, Copy, PartialEq, Eq, Structural, PartialOrd, Ord, Hash, Debug)]
pub enum Family {
    /// IPv4
    Ipv4,
    /// IPv6
    Ipv6,
}

impl Family {
    /// Number of bits in an address of this family.
    pub open spec fn width(self) -> nat {
        match self {
            Family::Ipv4 => 32,
            Family::Ipv6 => 128,
        }
    }

    /// The length of an address (as bitstring) in the given family.
    pub fn len(&self) -> (bits: u8)
        ensures
            bits as nat == self.width(),
    {
        match self {
            Family::Ipv4 => 32,
            Family::Ipv6 => 128,
        }
    }

    /// The "unspecified" address (all zero) of the given family.
    pub fn unspecified_address(&self) -> (addr: IpAddr)
        ensures
            addr._family() == *self,
            addr._value() == 0,
    {
        match self {
            Family::Ipv4 => IpAddr::V4(Ipv4Addr::new(0, 0, 0, 0)),
            Family::Ipv6 => IpAddr::V6(Ipv6Addr::new(0, 0, 0, 0, 0, 0, 0, 0)),
        }
    }

    /// The "loopback" address (`127.0.0.1` or `::1`) of the given family.
    pub fn loopback_address(&self) -> (addr: IpAddr)
        ensures
            addr._family() == *self,
            addr._value() == (match *self {
                Family::Ipv4 => 0x7f00_0001nat,
                Family::Ipv6 => 1nat,
            }),
    {
        match self {
            Family::Ipv4 => IpAddr::V4(Ipv4Addr::new(127, 0, 0, 1)),
            Family::Ipv6 => IpAddr::V6(Ipv6Addr::new(0, 0, 0, 0, 0, 0, 0, 1)),
        }
    }
}

} // verus!
