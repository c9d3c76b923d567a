//! Networks from texts.

use vstd::prelude::*;
use vstd::string::StringSliceAdditionalSpecFns;
use crate::cidr::{AnyIpCidr, IpCidr, Ipv4Cidr, Ipv6Cidr};
use crate::errors::{AddrParseError, NetworkParseError};
use crate::family::Family;
use crate::local_addr_parser::ParseableAddress;
use crate::parsers::combinators::{
    any_cidr_is,
    cidr_is,
    is_any_text,
    network_text,
    parse_cidr,
    parses_addresses,
    single_of,
};
use crate::text::text_equal;
use crate::traits::Cidr;

verus! {

/// What texts are as addresses of the type `A`.
pub open spec fn spelled_by<A: ParseableAddress>() -> spec_fn(Seq<u8>) -> Result<
    (Family, nat),
    AddrParseError,
> {
    |t: Seq<u8>| A::spelled(t)
}

/// The network that a text spells: an address, a `/` and a network
/// length, or an address alone for the network of that one address.
pub fn cidr_from_str<C>(s: &str) -> (r: Result<C, NetworkParseError>) where
    C: Cidr,
    C::Address: ParseableAddress,

    ensures
        cidr_is(
            r,
            network_text(
                s.spec_bytes(),
                spelled_by::<C::Address>(),
                single_of(spelled_by::<C::Address>()),
                true,
            ),
        ),
{
    let r = parse_cidr(s, <C::Address as ParseableAddress>::address_from_str);
    proof {
        let address = spelled_by::<C::Address>();
        assert(parses_addresses(<C::Address as ParseableAddress>::address_from_str, address));
        assert(cidr_is(r, network_text(s.spec_bytes(), address, single_of(address), true)));
    }
    r
}

/// The network or `any` that a text spells.
pub fn any_cidr_from_str(s: &str) -> (r: Result<AnyIpCidr, NetworkParseError>)
    ensures
        is_any_text(s.spec_bytes()) ==> r == Ok::<_, NetworkParseError>(AnyIpCidr::Any),
        !is_any_text(s.spec_bytes()) ==> any_cidr_is(
            r,
            network_text(
                s.spec_bytes(),
                spelled_by::<crate::address::IpAddr>(),
                single_of(spelled_by::<crate::address::IpAddr>()),
                true,
            ),
        ),
{
    if text_equal(s, "any") {
        Ok(AnyIpCidr::Any)
    } else {
        match cidr_from_str::<IpCidr>(s) {
            Ok(cidr) => Ok(AnyIpCidr::from(cidr)),
            Err(e) => Err(e),
        }
    }
}

impl core::str::FromStr for Ipv4Cidr {
    type Err = NetworkParseError;

    /// The network that a text spells: an address, a `/` and a network
    /// length, or an address alone for the network of that one address.
    fn from_str(s: &str) -> (r: Result<Ipv4Cidr, NetworkParseError>)
        ensures
            cidr_is(
                r,
                network_text(
                    s.spec_bytes(),
                    spelled_by::<crate::address::Ipv4Addr>(),
                    single_of(spelled_by::<crate::address::Ipv4Addr>()),
                    true,
                ),
            ),
    {
        cidr_from_str(s)
    }
}

impl core::str::FromStr for Ipv6Cidr {
    type Err = NetworkParseError;

    /// The network that a text spells: an address, a `/` and a network
    /// length, or an address alone for the network of that one address.
    fn from_str(s: &str) -> (r: Result<Ipv6Cidr, NetworkParseError>)
        ensures
            cidr_is(
                r,
                network_text(
                    s.spec_bytes(),
                    spelled_by::<crate::address::Ipv6Addr>(),
                    single_of(spelled_by::<crate::address::Ipv6Addr>()),
                    true,
                ),
            ),
    {
        cidr_from_str(s)
    }
}

impl core::str::FromStr for IpCidr {
    type Err = NetworkParseError;

    /// The network that a text spells: an address, a `/` and a network
    /// length, or an address alone for the network of that one address.
    fn from_str(s: &str) -> (r: Result<IpCidr, NetworkParseError>)
        ensures
            cidr_is(
                r,
                network_text(
                    s.spec_bytes(),
                    spelled_by::<crate::address::IpAddr>(),
                    single_of(spelled_by::<crate::address::IpAddr>()),
                    true,
                ),
            ),
    {
        cidr_from_str(s)
    }
}

impl core::str::FromStr for AnyIpCidr {
    type Err = NetworkParseError;

    /// The network or `any` that a text spells.
    fn from_str(s: &str) -> (r: Result<AnyIpCidr, NetworkParseError>)
        ensures
            is_any_text(s.spec_bytes()) ==> r == Ok::<_, NetworkParseError>(AnyIpCidr::Any),
            !is_any_text(s.spec_bytes()) ==> any_cidr_is(
                r,
                network_text(
                    s.spec_bytes(),
                    spelled_by::<crate::address::IpAddr>(),
                    single_of(spelled_by::<crate::address::IpAddr>()),
                    true,
                ),
            ),
    {
        any_cidr_from_str(s)
    }
}

} // verus!
