//! Hosts within networks from texts.

use vstd::prelude::*;
use vstd::string::StringSliceAdditionalSpecFns;
use crate::cidr::from_str::spelled_by;
use crate::errors::NetworkParseError;
use crate::inet::{IpInet, Ipv4Inet, Ipv6Inet};
use crate::local_addr_parser::ParseableAddress;
use crate::parsers::combinators::{host_text, inet_is, parse_inet, parses_addresses, single_of};
use crate::traits::Inet;

verus! {

/// The host that a text spells: an address, a `/` and a network length,
/// or an address alone for the host that is all of its network.
pub fn inet_from_str<I>(s: &str) -> (r: Result<I, NetworkParseError>) where
    I: Inet,
    I::Address: ParseableAddress,

    ensures
        inet_is(
            r,
            host_text(
                s.spec_bytes(),
                spelled_by::<I::Address>(),
                single_of(spelled_by::<I::Address>()),
            ),
        ),
{
    let r = parse_inet(s, <I::Address as ParseableAddress>::address_from_str);
    proof {
        let address = spelled_by::<I::Address>();
        assert(parses_addresses(<I::Address as ParseableAddress>::address_from_str, address));
        assert(inet_is(r, host_text(s.spec_bytes(), address, single_of(address))));
    }
    r
}

impl core::str::FromStr for Ipv4Inet {
    type Err = NetworkParseError;

    /// The host that a text spells: an address, a `/` and a network
    /// length, or an address alone for the host that is all of its network.
    fn from_str(s: &str) -> (r: Result<Ipv4Inet, NetworkParseError>)
        ensures
            inet_is(
                r,
                host_text(
                    s.spec_bytes(),
                    spelled_by::<crate::address::Ipv4Addr>(),
                    single_of(spelled_by::<crate::address::Ipv4Addr>()),
                ),
            ),
    {
        inet_from_str(s)
    }
}

impl core::str::FromStr for Ipv6Inet {
    type Err = NetworkParseError;

    /// The host that a text spells: an address, a `/` and a network
    /// length, or an address alone for the host that is all of its network.
    fn from_str(s: &str) -> (r: Result<Ipv6Inet, NetworkParseError>)
        ensures
            inet_is(
                r,
                host_text(
                    s.spec_bytes(),
                    spelled_by::<crate::address::Ipv6Addr>(),
                    single_of(spelled_by::<crate::address::Ipv6Addr>()),
                ),
            ),
    {
        inet_from_str(s)
    }
}

impl core::str::FromStr for IpInet {
    type Err = NetworkParseError;

    /// The host that a text spells: an address, a `/` and a network
    /// length, or an address alone for the host that is all of its network.
    fn from_str(s: &str) -> (r: Result<IpInet, NetworkParseError>)
        ensures
            inet_is(
                r,
                host_text(
                    s.spec_bytes(),
                    spelled_by::<crate::address::IpAddr>(),
                    single_of(spelled_by::<crate::address::IpAddr>()),
                ),
            ),
    {
        inet_from_str(s)
    }
}

} // verus!
