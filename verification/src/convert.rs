//! Conversions between the types of this crate: an address is the network
//! and the host of that one address, a value of one family is a value of
//! either family, and an error of a part is the error of the whole.

use vstd::prelude::*;
use vstd::std_specs::convert::FromSpecImpl;
use crate::address::{IpAddr, Ipv4Addr, Ipv6Addr};
use crate::cidr::{IpCidr, Ipv4Cidr, Ipv6Cidr};
use crate::errors::{
    AddrParseError,
    InetTupleError,
    NetworkLengthTooLongError,
    NetworkParseError,
    ParseIntError,
};
use crate::inet::{IpInet, Ipv4Inet, Ipv6Inet};
use crate::inet_pair::{IpInetPair, Ipv4InetPair, Ipv6InetPair};

verus! {

impl FromSpecImpl<Ipv4Addr> for Ipv4Cidr {
    open spec fn obeys_from_spec() -> bool {
        true
    }

    open(crate) spec fn from_spec(address: Ipv4Addr) -> Self {
        Ipv4Cidr { address: address, network_length: 32 }
    }
}

impl From<Ipv4Addr> for Ipv4Cidr {
    fn from(address: Ipv4Addr) -> (r: Self) {
        Ipv4Cidr::new_host(address)
    }
}

impl FromSpecImpl<Ipv6Addr> for Ipv6Cidr {
    open spec fn obeys_from_spec() -> bool {
        true
    }

    open(crate) spec fn from_spec(address: Ipv6Addr) -> Self {
        Ipv6Cidr { address: address, network_length: 128 }
    }
}

impl From<Ipv6Addr> for Ipv6Cidr {
    fn from(address: Ipv6Addr) -> (r: Self) {
        Ipv6Cidr::new_host(address)
    }
}

impl FromSpecImpl<Ipv4Addr> for Ipv4Inet {
    open spec fn obeys_from_spec() -> bool {
        true
    }

    open(crate) spec fn from_spec(address: Ipv4Addr) -> Self {
        Ipv4Inet { address: address, network_length: 32 }
    }
}

impl From<Ipv4Addr> for Ipv4Inet {
    fn from(address: Ipv4Addr) -> (r: Self) {
        Ipv4Inet::new_host(address)
    }
}

impl FromSpecImpl<Ipv6Addr> for Ipv6Inet {
    open spec fn obeys_from_spec() -> bool {
        true
    }

    open(crate) spec fn from_spec(address: Ipv6Addr) -> Self {
        Ipv6Inet { address: address, network_length: 128 }
    }
}

impl From<Ipv6Addr> for Ipv6Inet {
    fn from(address: Ipv6Addr) -> (r: Self) {
        Ipv6Inet::new_host(address)
    }
}

impl FromSpecImpl<Ipv4Cidr> for IpCidr {
    open spec fn obeys_from_spec() -> bool {
        true
    }

    open spec fn from_spec(c: Ipv4Cidr) -> Self {
        IpCidr::V4(c)
    }
}

impl From<Ipv4Cidr> for IpCidr {
    fn from(c: Ipv4Cidr) -> (r: Self) {
        IpCidr::V4(c)
    }
}

impl FromSpecImpl<Ipv6Cidr> for IpCidr {
    open spec fn obeys_from_spec() -> bool {
        true
    }

    open spec fn from_spec(c: Ipv6Cidr) -> Self {
        IpCidr::V6(c)
    }
}

impl From<Ipv6Cidr> for IpCidr {
    fn from(c: Ipv6Cidr) -> (r: Self) {
        IpCidr::V6(c)
    }
}

impl FromSpecImpl<Ipv4Inet> for IpInet {
    open spec fn obeys_from_spec() -> bool {
        true
    }

    open spec fn from_spec(c: Ipv4Inet) -> Self {
        IpInet::V4(c)
    }
}

impl From<Ipv4Inet> for IpInet {
    fn from(c: Ipv4Inet) -> (r: Self) {
        IpInet::V4(c)
    }
}

impl FromSpecImpl<Ipv6Inet> for IpInet {
    open spec fn obeys_from_spec() -> bool {
        true
    }

    open spec fn from_spec(c: Ipv6Inet) -> Self {
        IpInet::V6(c)
    }
}

impl From<Ipv6Inet> for IpInet {
    fn from(c: Ipv6Inet) -> (r: Self) {
        IpInet::V6(c)
    }
}

impl FromSpecImpl<Ipv4InetPair> for IpInetPair {
    open spec fn obeys_from_spec() -> bool {
        true
    }

    open spec fn from_spec(c: Ipv4InetPair) -> Self {
        IpInetPair::V4(c)
    }
}

impl From<Ipv4InetPair> for IpInetPair {
    fn from(c: Ipv4InetPair) -> (r: Self) {
        IpInetPair::V4(c)
    }
}

impl FromSpecImpl<Ipv6InetPair> for IpInetPair {
    open spec fn obeys_from_spec() -> bool {
        true
    }

    open spec fn from_spec(c: Ipv6InetPair) -> Self {
        IpInetPair::V6(c)
    }
}

impl From<Ipv6InetPair> for IpInetPair {
    fn from(c: Ipv6InetPair) -> (r: Self) {
        IpInetPair::V6(c)
    }
}

impl FromSpecImpl<Ipv4Addr> for IpAddr {
    open spec fn obeys_from_spec() -> bool {
        true
    }

    open spec fn from_spec(address: Ipv4Addr) -> Self {
        IpAddr::V4(address)
    }
}

impl From<Ipv4Addr> for IpAddr {
    fn from(address: Ipv4Addr) -> (r: Self) {
        IpAddr::V4(address)
    }
}

impl FromSpecImpl<Ipv6Addr> for IpAddr {
    open spec fn obeys_from_spec() -> bool {
        true
    }

    open spec fn from_spec(address: Ipv6Addr) -> Self {
        IpAddr::V6(address)
    }
}

impl From<Ipv6Addr> for IpAddr {
    fn from(address: Ipv6Addr) -> (r: Self) {
        IpAddr::V6(address)
    }
}

impl FromSpecImpl<AddrParseError> for NetworkParseError {
    open spec fn obeys_from_spec() -> bool {
        true
    }

    open spec fn from_spec(e: AddrParseError) -> Self {
        NetworkParseError::AddrParseError(e)
    }
}

impl From<AddrParseError> for NetworkParseError {
    fn from(e: AddrParseError) -> (r: Self) {
        NetworkParseError::AddrParseError(e)
    }
}

impl FromSpecImpl<ParseIntError> for NetworkParseError {
    open spec fn obeys_from_spec() -> bool {
        true
    }

    open spec fn from_spec(e: ParseIntError) -> Self {
        NetworkParseError::NetworkLengthParseError(e)
    }
}

impl From<ParseIntError> for NetworkParseError {
    fn from(e: ParseIntError) -> (r: Self) {
        NetworkParseError::NetworkLengthParseError(e)
    }
}

impl FromSpecImpl<NetworkLengthTooLongError> for NetworkParseError {
    open spec fn obeys_from_spec() -> bool {
        true
    }

    open spec fn from_spec(e: NetworkLengthTooLongError) -> Self {
        NetworkParseError::NetworkLengthTooLongError(e)
    }
}

impl From<NetworkLengthTooLongError> for NetworkParseError {
    fn from(e: NetworkLengthTooLongError) -> (r: Self) {
        NetworkParseError::NetworkLengthTooLongError(e)
    }
}

impl FromSpecImpl<NetworkLengthTooLongError> for InetTupleError {
    open spec fn obeys_from_spec() -> bool {
        true
    }

    open spec fn from_spec(e: NetworkLengthTooLongError) -> Self {
        InetTupleError::NetworkLengthTooLongError(e)
    }
}

impl From<NetworkLengthTooLongError> for InetTupleError {
    fn from(e: NetworkLengthTooLongError) -> (r: Self) {
        InetTupleError::NetworkLengthTooLongError(e)
    }
}

impl FromSpecImpl<[u8; 4]> for Ipv4Addr {
    open spec fn obeys_from_spec() -> bool {
        true
    }

    open(crate) spec fn from_spec(octets: [u8; 4]) -> Self {
        Ipv4Addr { bits: crate::address::be_value(octets@) as u32 }
    }
}

impl From<[u8; 4]> for Ipv4Addr {
    fn from(octets: [u8; 4]) -> (r: Self) {
        proof {
            crate::address::lemma_be_value_bounded(octets@);
            crate::bit_math::lemma_pow2_widths();
        }
        Ipv4Addr::from_octets(octets)
    }
}

impl FromSpecImpl<[u8; 16]> for Ipv6Addr {
    open spec fn obeys_from_spec() -> bool {
        true
    }

    open(crate) spec fn from_spec(octets: [u8; 16]) -> Self {
        Ipv6Addr { bits: crate::address::be_value(octets@) as u128 }
    }
}

impl From<[u8; 16]> for Ipv6Addr {
    fn from(octets: [u8; 16]) -> (r: Self) {
        proof {
            crate::address::lemma_be_value_bounded(octets@);
            crate::bit_math::lemma_pow2_widths();
        }
        Ipv6Addr::from_octets(octets)
    }
}

} // verus!
