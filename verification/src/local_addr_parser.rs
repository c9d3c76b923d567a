//! What the types of this crate take for an address when they are parsed
//! from a text.

use vstd::prelude::*;
use vstd::string::StringSliceAdditionalSpecFns;
use crate::addr_text::{ip_from_str, ip_value, ipv4_from_str, ipv4_value, ipv6_from_str, ipv6_value};
use crate::address::{IpAddr, Ipv4Addr, Ipv6Addr};
use crate::errors::AddrParseError;
use crate::family::Family;
use crate::internal_traits::PrivUnspecAddress;
use crate::parsers::combinators::address_is;
use crate::parsers::ipv4_short::{parse_short_ipv4_address_as_cidr, short_network};

verus! {

/// An address that can be parsed from a text.
pub trait ParseableAddress: PrivUnspecAddress {
    /// The address that a text spells, as its family and its number, or
    /// why the text spells none.
    spec fn spelled(text: Seq<u8>) -> Result<(Family, nat), AddrParseError>;

    /// The address that the text spells.
    fn address_from_str(s: &str) -> (r: Result<Self, AddrParseError>)
        ensures
            address_is(r, Self::spelled(s.spec_bytes())),
    ;
}

/// The first address of the network that the short text spells.
fn special_ipv4_parser(s: &str) -> (r: Option<Ipv4Addr>)
    ensures
        r is Some <==> short_network(s.spec_bytes()) is Some || ipv4_value(s.spec_bytes()) is Some,
        r is Some ==> r->Some_0@ == (match short_network(s.spec_bytes()) {
            Some(n) => n.address,
            None => ipv4_value(s.spec_bytes())->Some_0,
        }),
{
    match parse_short_ipv4_address_as_cidr(s) {
        Ok(cidr) => Some(cidr.first_address()),
        Err(_) => None,
    }
}

/// The IPv4 address that a text spells, in the strict form or else in
/// the short one.
pub open spec fn spelled_ipv4(text: Seq<u8>) -> Option<nat> {
    match ipv4_value(text) {
        Some(v) => Some(v),
        None => match short_network(text) {
            Some(n) => Some(n.address),
            None => None,
        },
    }
}

impl ParseableAddress for Ipv4Addr {
    open spec fn spelled(text: Seq<u8>) -> Result<(Family, nat), AddrParseError> {
        match spelled_ipv4(text) {
            Some(v) => Ok((Family::Ipv4, v)),
            None => Err(AddrParseError::Ipv4),
        }
    }

    fn address_from_str(s: &str) -> (r: Result<Self, AddrParseError>) {
        match ipv4_from_str(s) {
            Ok(addr) => Ok(addr),
            Err(err) => match special_ipv4_parser(s) {
                Some(addr) => Ok(addr),
                None => Err(err),
            },
        }
    }
}

impl ParseableAddress for Ipv6Addr {
    open spec fn spelled(text: Seq<u8>) -> Result<(Family, nat), AddrParseError> {
        match ipv6_value(text) {
            Some(v) => Ok((Family::Ipv6, v)),
            None => Err(AddrParseError::Ipv6),
        }
    }

    fn address_from_str(s: &str) -> (r: Result<Self, AddrParseError>) {
        ipv6_from_str(s)
    }
}

impl ParseableAddress for IpAddr {
    open spec fn spelled(text: Seq<u8>) -> Result<(Family, nat), AddrParseError> {
        match ip_value(text) {
            Some((family, v)) => Ok((family, v)),
            None => match short_network(text) {
                Some(n) => Ok((Family::Ipv4, n.address)),
                None => Err(AddrParseError::Ip),
            },
        }
    }

    fn address_from_str(s: &str) -> (r: Result<Self, AddrParseError>) {
        match ip_from_str(s) {
            Ok(addr) => Ok(addr),
            Err(err) => match special_ipv4_parser(s) {
                Some(addr) => Ok(IpAddr::V4(addr)),
                None => Err(err),
            },
        }
    }
}

} // verus!
