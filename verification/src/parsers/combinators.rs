//! Parsers of networks and hosts that are built from parsers of addresses.
//!
//! A text with a `/` is an address, then the `/`, then the network length;
//! the last `/` of the text counts.  A text without one is left to a
//! parser of its own.

use vstd::prelude::*;
use vstd::string::StringSliceAdditionalSpecFns;
use crate::address::IpAddr;
use crate::cidr::{AnyIpCidr, IpCidr};
use crate::errors::{AddrParseError, NetworkLengthTooLongError, NetworkParseError, ParseIntError};
use crate::family::Family;
use crate::inet::IpInet;
use crate::internal_traits::{PrivCidr, PrivInet, PrivUnspecAddress};
use crate::prefix_math::{has_zero_host_part, network_address, Prefix};
use crate::text::{
    last_index_of,
    parse_number,
    parse_number_in,
    rfind_byte,
    split_around,
    text_equal,
};
use crate::traits::{Address, Cidr, Inet};

verus! {

/// The byte `/`.
pub const SLASH: u8 = 0x2f;

/// What a text is as a network length: a number from 0 to 255.
pub open spec fn length_of_text(s: Seq<u8>) -> Result<u8, ParseIntError> {
    match parse_number(s, 10, 256) {
        Ok(n) => Ok(n as u8),
        Err(e) => Err(e),
    }
}

/// The network length that a text spells.
pub fn parse_length(s: &str) -> (r: Result<u8, ParseIntError>)
    ensures
        r == length_of_text(s.spec_bytes()),
{
    let bytes = s.as_bytes();
    proof {
        assert(bytes@.subrange(0, bytes@.len() as int) =~= bytes@);
    }
    match parse_number_in(bytes, 0, bytes.len(), 10, 256) {
        Ok(n) => Ok(n as u8),
        Err(e) => Err(e),
    }
}

/// The network that an address and a length make: none where the length
/// is too long, and none where `strict` is set and the host part of the
/// address is not zero; else the host part counts for nothing.
pub open spec fn made_network(family: Family, address: nat, len: u8, strict: bool) -> Result<
    (Family, Prefix),
    NetworkParseError,
> {
    if len > family.width() {
        Err(
            NetworkParseError::NetworkLengthTooLongError(
                NetworkLengthTooLongError(len as usize, family),
            ),
        )
    } else if strict && !has_zero_host_part(address, family.width(), len as nat) {
        Err(NetworkParseError::InvalidHostPart)
    } else {
        Ok(
            (
                family,
                Prefix {
                    address: network_address(address, family.width(), len as nat),
                    length: len as nat,
                },
            ),
        )
    }
}

/// The host that an address and a length make: none where the length is
/// too long.
pub open spec fn made_host(family: Family, address: nat, len: u8) -> Result<
    (Family, Prefix),
    NetworkParseError,
> {
    if len > family.width() {
        Err(
            NetworkParseError::NetworkLengthTooLongError(
                NetworkLengthTooLongError(len as usize, family),
            ),
        )
    } else {
        Ok((family, Prefix { address: address, length: len as nat }))
    }
}

/// The network or host of full length that an address makes.
pub open spec fn made_single(address: Result<(Family, nat), AddrParseError>) -> Result<
    (Family, Prefix),
    NetworkParseError,
> {
    match address {
        Ok((family, value)) => Ok((family, Prefix { address: value, length: family.width() })),
        Err(e) => Err(NetworkParseError::AddrParseError(e)),
    }
}

/// What a text without `/` is where it is taken as an address: the
/// network or host of full length that the address makes.
pub open spec fn single_of(
    address: spec_fn(Seq<u8>) -> Result<(Family, nat), AddrParseError>,
) -> spec_fn(Seq<u8>) -> Result<(Family, Prefix), NetworkParseError> {
    |t: Seq<u8>| made_single(address(t))
}

/// What a text is as a network, given what texts are as addresses and
/// what a text without `/` is.
pub open spec fn network_text(
    t: Seq<u8>,
    address: spec_fn(Seq<u8>) -> Result<(Family, nat), AddrParseError>,
    host: spec_fn(Seq<u8>) -> Result<(Family, Prefix), NetworkParseError>,
    strict: bool,
) -> Result<(Family, Prefix), NetworkParseError> {
    let p = last_index_of(t, SLASH);
    if p < 0 {
        host(t)
    } else {
        match address(t.take(p)) {
            Err(e) => Err(NetworkParseError::AddrParseError(e)),
            Ok((family, value)) => match length_of_text(t.skip(p + 1)) {
                Err(e) => Err(NetworkParseError::NetworkLengthParseError(e)),
                Ok(len) => made_network(family, value, len, strict),
            },
        }
    }
}

/// What a text is as a host within a network, given what texts are as
/// addresses and what a text without `/` is.
pub open spec fn host_text(
    t: Seq<u8>,
    address: spec_fn(Seq<u8>) -> Result<(Family, nat), AddrParseError>,
    host: spec_fn(Seq<u8>) -> Result<(Family, Prefix), NetworkParseError>,
) -> Result<(Family, Prefix), NetworkParseError> {
    let p = last_index_of(t, SLASH);
    if p < 0 {
        host(t)
    } else {
        match address(t.take(p)) {
            Err(e) => Err(NetworkParseError::AddrParseError(e)),
            Ok((family, value)) => match length_of_text(t.skip(p + 1)) {
                Err(e) => Err(NetworkParseError::NetworkLengthParseError(e)),
                Ok(len) => made_host(family, value, len),
            },
        }
    }
}

/// Whether an address that was parsed is what was to come out.
pub open spec fn address_is<A: PrivUnspecAddress>(
    r: Result<A, AddrParseError>,
    expected: Result<(Family, nat), AddrParseError>,
) -> bool {
    match expected {
        Ok((family, value)) => r is Ok && r->Ok_0._family() == family && r->Ok_0._value() == value,
        Err(e) => r == Err::<A, _>(e),
    }
}

/// Whether a network that was parsed is what was to come out.
pub open spec fn cidr_is<C: PrivCidr>(
    r: Result<C, NetworkParseError>,
    expected: Result<(Family, Prefix), NetworkParseError>,
) -> bool {
    match expected {
        Ok((family, prefix)) => r is Ok && r->Ok_0._family() == family && r->Ok_0._prefix()
            == prefix,
        Err(e) => r == Err::<C, _>(e),
    }
}

/// Whether a host that was parsed is what was to come out.
pub open spec fn inet_is<I: PrivInet>(
    r: Result<I, NetworkParseError>,
    expected: Result<(Family, Prefix), NetworkParseError>,
) -> bool {
    match expected {
        Ok((family, prefix)) => r is Ok && r->Ok_0._family() == family && r->Ok_0._prefix()
            == prefix,
        Err(e) => r == Err::<I, _>(e),
    }
}

/// Whether a network or `any` that was parsed is what was to come out.
pub open spec fn any_cidr_is(
    r: Result<AnyIpCidr, NetworkParseError>,
    expected: Result<(Family, Prefix), NetworkParseError>,
) -> bool {
    match expected {
        Ok((family, prefix)) => r is Ok && r->Ok_0.network() is Some
            && r->Ok_0.network()->Some_0._family() == family
            && r->Ok_0.network()->Some_0._prefix() == prefix,
        Err(e) => r == Err::<AnyIpCidr, _>(e),
    }
}

/// Whether the parser of addresses gives on every text what `address`
/// says.
pub open spec fn parses_addresses<A: PrivUnspecAddress, AP: FnOnce(&str) -> Result<
    A,
    AddrParseError,
>>(address_parser: AP, address: spec_fn(Seq<u8>) -> Result<(Family, nat), AddrParseError>) -> bool {
    forall|t: &str, r: Result<A, AddrParseError>|
        call_ensures(address_parser, (t,), r) ==> address_is(r, address(t.spec_bytes()))
}

/// Whether the parser of networks gives on every text what `host` says.
pub open spec fn parses_networks<C: PrivCidr, HP: FnOnce(&str) -> Result<C, NetworkParseError>>(
    host_parser: HP,
    host: spec_fn(Seq<u8>) -> Result<(Family, Prefix), NetworkParseError>,
) -> bool {
    forall|t: &str, r: Result<C, NetworkParseError>|
        call_ensures(host_parser, (t,), r) ==> cidr_is(r, host(t.spec_bytes()))
}

/// Whether the parser of hosts gives on every text what `host` says.
pub open spec fn parses_hosts<I: PrivInet, HP: FnOnce(&str) -> Result<I, NetworkParseError>>(
    host_parser: HP,
    host: spec_fn(Seq<u8>) -> Result<(Family, Prefix), NetworkParseError>,
) -> bool {
    forall|t: &str, r: Result<I, NetworkParseError>|
        call_ensures(host_parser, (t,), r) ==> inet_is(r, host(t.spec_bytes()))
}

/// Parse `Cidr` with custom address and network (when no '/' separator was found) parser
///
/// If a '/' is found, parse trailing number as prefix length and leading address with `address_parser`.
/// Otherwise parse with `host_parser`.
pub fn parse_cidr_full<C, AP, HP>(s: &str, address_parser: AP, host_parser: HP) -> (r: Result<
    C,
    NetworkParseError,
>) where
    C: Cidr,
    AP: FnOnce(&str) -> Result<C::Address, AddrParseError>,
    HP: FnOnce(&str) -> Result<C, NetworkParseError>,

    requires
        forall|t: &str| call_requires(address_parser, (t,)),
        forall|t: &str| call_requires(host_parser, (t,)),
    ensures
        forall|
            address: spec_fn(Seq<u8>) -> Result<(Family, nat), AddrParseError>,
            host: spec_fn(Seq<u8>) -> Result<(Family, Prefix), NetworkParseError>,
        |
            parses_addresses(address_parser, address) && parses_networks(host_parser, host)
                ==> cidr_is(r, #[trigger] network_text(s.spec_bytes(), address, host, true)),
{
    match rfind_byte(s.as_bytes(), SLASH) {
        None => host_parser(s),
        Some(pos) => {
            let (head, tail) = split_around(s, pos);
            let addr = match address_parser(head) {
                Ok(addr) => addr,
                Err(e) => {
                    return Err(NetworkParseError::AddrParseError(e));
                },
            };
            let len = match parse_length(tail) {
                Ok(len) => len,
                Err(e) => {
                    return Err(NetworkParseError::NetworkLengthParseError(e));
                },
            };
            proof {
                crate::prefix_math::lemma_zero_host_is_network(
                    addr._value(),
                    addr._family().width(),
                    len as nat,
                );
            }
            C::new(addr, len)
        },
    }
}

/// Parse `Cidr` with custom address parser
///
/// If a '/' is found, parse trailing number as prefix length and leading address with `address_parser`.
/// Otherwise parse `address_parser` and treat as host (maximum prefix length).
pub fn parse_cidr<C, AP>(s: &str, address_parser: AP) -> (r: Result<C, NetworkParseError>) where
    C: Cidr,
    AP: Fn(&str) -> Result<C::Address, AddrParseError>,

    requires
        forall|t: &str| call_requires(address_parser, (t,)),
    ensures
        forall|address: spec_fn(Seq<u8>) -> Result<(Family, nat), AddrParseError>|
            parses_addresses(address_parser, address) ==> cidr_is(
                r,
                #[trigger] network_text(
                    s.spec_bytes(),
                    address,
                    single_of(address),
                    true,
                ),
            ),
{
    match rfind_byte(s.as_bytes(), SLASH) {
        None => match address_parser(s) {
            Ok(addr) => Ok(C::new_host(addr)),
            Err(e) => Err(NetworkParseError::AddrParseError(e)),
        },
        Some(pos) => {
            let (head, tail) = split_around(s, pos);
            let addr = match address_parser(head) {
                Ok(addr) => addr,
                Err(e) => {
                    return Err(NetworkParseError::AddrParseError(e));
                },
            };
            let len = match parse_length(tail) {
                Ok(len) => len,
                Err(e) => {
                    return Err(NetworkParseError::NetworkLengthParseError(e));
                },
            };
            proof {
                crate::prefix_math::lemma_zero_host_is_network(
                    addr._value(),
                    addr._family().width(),
                    len as nat,
                );
            }
            C::new(addr, len)
        },
    }
}

/// Parse `Cidr` with custom address and network (when no '/' separator was found) parser
///
/// Similar to `parse_cidr_full` but ignores host bits in addresses.
pub fn parse_cidr_full_ignore_hostbits<C, AP, HP>(
    s: &str,
    address_parser: AP,
    host_parser: HP,
) -> (r: Result<C, NetworkParseError>) where
    C: Cidr,
    C::Address: Address<Cidr = C>,
    AP: FnOnce(&str) -> Result<C::Address, AddrParseError>,
    HP: FnOnce(&str) -> Result<C, NetworkParseError>,

    requires
        forall|t: &str| call_requires(address_parser, (t,)),
        forall|t: &str| call_requires(host_parser, (t,)),
    ensures
        forall|
            address: spec_fn(Seq<u8>) -> Result<(Family, nat), AddrParseError>,
            host: spec_fn(Seq<u8>) -> Result<(Family, Prefix), NetworkParseError>,
        |
            parses_addresses(address_parser, address) && parses_networks(host_parser, host)
                ==> cidr_is(r, #[trigger] network_text(s.spec_bytes(), address, host, false)),
{
    match rfind_byte(s.as_bytes(), SLASH) {
        None => host_parser(s),
        Some(pos) => {
            let (head, tail) = split_around(s, pos);
            let addr = match address_parser(head) {
                Ok(addr) => addr,
                Err(e) => {
                    return Err(NetworkParseError::AddrParseError(e));
                },
            };
            let len = match parse_length(tail) {
                Ok(len) => len,
                Err(e) => {
                    return Err(NetworkParseError::NetworkLengthParseError(e));
                },
            };
            match <<C::Address as Address>::Inet as Inet>::new(addr, len) {
                Ok(inet) => Ok(inet.network()),
                Err(e) => Err(NetworkParseError::NetworkLengthTooLongError(e)),
            }
        },
    }
}

/// Parse `Cidr` with custom address parser
///
/// Similar to `parse_cidr` but ignores host bits in addresses.
pub fn parse_cidr_ignore_hostbits<C, AP>(s: &str, address_parser: AP) -> (r: Result<
    C,
    NetworkParseError,
>) where C: Cidr, C::Address: Address<Cidr = C>, AP: Fn(&str) -> Result<C::Address, AddrParseError>

    requires
        forall|t: &str| call_requires(address_parser, (t,)),
    ensures
        forall|address: spec_fn(Seq<u8>) -> Result<(Family, nat), AddrParseError>|
            parses_addresses(address_parser, address) ==> cidr_is(
                r,
                #[trigger] network_text(
                    s.spec_bytes(),
                    address,
                    single_of(address),
                    false,
                ),
            ),
{
    match rfind_byte(s.as_bytes(), SLASH) {
        None => match address_parser(s) {
            Ok(addr) => Ok(C::new_host(addr)),
            Err(e) => Err(NetworkParseError::AddrParseError(e)),
        },
        Some(pos) => {
            let (head, tail) = split_around(s, pos);
            let addr = match address_parser(head) {
                Ok(addr) => addr,
                Err(e) => {
                    return Err(NetworkParseError::AddrParseError(e));
                },
            };
            let len = match parse_length(tail) {
                Ok(len) => len,
                Err(e) => {
                    return Err(NetworkParseError::NetworkLengthParseError(e));
                },
            };
            match <<C::Address as Address>::Inet as Inet>::new(addr, len) {
                Ok(inet) => Ok(inet.network()),
                Err(e) => Err(NetworkParseError::NetworkLengthTooLongError(e)),
            }
        },
    }
}

/// Whether the text is `any`.
pub open spec fn is_any_text(t: Seq<u8>) -> bool {
    t == "any".spec_bytes()
}

/// Parse `AnyIpCidr` with custom address and network (when no '/' separator was found) parser
///
/// Return `AnyIpCidr::Any` for `"any"`.
/// If a '/' is found, parse trailing number as prefix length and leading address with `address_parser`.
/// Otherwise parse with `host_parser`.
pub fn parse_any_cidr_full<AP, HP>(s: &str, address_parser: AP, host_parser: HP) -> (r: Result<
    AnyIpCidr,
    NetworkParseError,
>) where
    AP: FnOnce(&str) -> Result<IpAddr, AddrParseError>,
    HP: FnOnce(&str) -> Result<IpCidr, NetworkParseError>,

    requires
        forall|t: &str| call_requires(address_parser, (t,)),
        forall|t: &str| call_requires(host_parser, (t,)),
    ensures
        is_any_text(s.spec_bytes()) ==> r == Ok::<_, NetworkParseError>(AnyIpCidr::Any),
        !is_any_text(s.spec_bytes()) ==> forall|
            address: spec_fn(Seq<u8>) -> Result<(Family, nat), AddrParseError>,
            host: spec_fn(Seq<u8>) -> Result<(Family, Prefix), NetworkParseError>,
        |
            parses_addresses(address_parser, address) && parses_networks(host_parser, host)
                ==> any_cidr_is(r, #[trigger] network_text(s.spec_bytes(), address, host, true)),
{
    if text_equal(s, "any") {
        return Ok(AnyIpCidr::Any);
    }
    match rfind_byte(s.as_bytes(), SLASH) {
        None => match host_parser(s) {
            Ok(cidr) => Ok(AnyIpCidr::from(cidr)),
            Err(e) => Err(e),
        },
        Some(pos) => {
            let (head, tail) = split_around(s, pos);
            let addr = match address_parser(head) {
                Ok(addr) => addr,
                Err(e) => {
                    return Err(NetworkParseError::AddrParseError(e));
                },
            };
            let len = match parse_length(tail) {
                Ok(len) => len,
                Err(e) => {
                    return Err(NetworkParseError::NetworkLengthParseError(e));
                },
            };
            proof {
                crate::prefix_math::lemma_zero_host_is_network(
                    addr._value(),
                    addr._family().width(),
                    len as nat,
                );
            }
            AnyIpCidr::new(addr, len)
        },
    }
}

/// Parse `AnyIpCidr` with custom address parser
///
/// If a '/' is found, parse trailing number as prefix length and leading address with `address_parser`.
/// If input is just `"any"` returns `AnyIpCidr::Any`.
/// Otherwise parse `address_parser` and treat as host (maximum prefix length).
pub fn parse_any_cidr<AP>(s: &str, address_parser: AP) -> (r: Result<
    AnyIpCidr,
    NetworkParseError,
>) where AP: Fn(&str) -> Result<IpAddr, AddrParseError>
    requires
        forall|t: &str| call_requires(address_parser, (t,)),
    ensures
        is_any_text(s.spec_bytes()) ==> r == Ok::<_, NetworkParseError>(AnyIpCidr::Any),
        !is_any_text(s.spec_bytes()) ==> forall|
            address: spec_fn(Seq<u8>) -> Result<(Family, nat), AddrParseError>,
        |
            parses_addresses(address_parser, address) ==> any_cidr_is(
                r,
                #[trigger] network_text(
                    s.spec_bytes(),
                    address,
                    single_of(address),
                    true,
                ),
            ),
{
    if text_equal(s, "any") {
        return Ok(AnyIpCidr::Any);
    }
    match rfind_byte(s.as_bytes(), SLASH) {
        None => match address_parser(s) {
            Ok(addr) => Ok(AnyIpCidr::from(IpCidr::new_host(addr))),
            Err(e) => Err(NetworkParseError::AddrParseError(e)),
        },
        Some(pos) => {
            let (head, tail) = split_around(s, pos);
            let addr = match address_parser(head) {
                Ok(addr) => addr,
                Err(e) => {
                    return Err(NetworkParseError::AddrParseError(e));
                },
            };
            let len = match parse_length(tail) {
                Ok(len) => len,
                Err(e) => {
                    return Err(NetworkParseError::NetworkLengthParseError(e));
                },
            };
            proof {
                crate::prefix_math::lemma_zero_host_is_network(
                    addr._value(),
                    addr._family().width(),
                    len as nat,
                );
            }
            AnyIpCidr::new(addr, len)
        },
    }
}

/// Parse `AnyIpCidr` with custom address and network (when no '/' separator was found) parser
///
/// Similar to `parse_any_cidr_full` but ignores host bits in addresses.
pub fn parse_any_cidr_full_ignore_hostbits<AP, HP>(
    s: &str,
    address_parser: AP,
    host_parser: HP,
) -> (r: Result<AnyIpCidr, NetworkParseError>) where
    AP: FnOnce(&str) -> Result<IpAddr, AddrParseError>,
    HP: FnOnce(&str) -> Result<IpCidr, NetworkParseError>,

    requires
        forall|t: &str| call_requires(address_parser, (t,)),
        forall|t: &str| call_requires(host_parser, (t,)),
    ensures
        is_any_text(s.spec_bytes()) ==> r == Ok::<_, NetworkParseError>(AnyIpCidr::Any),
        !is_any_text(s.spec_bytes()) ==> forall|
            address: spec_fn(Seq<u8>) -> Result<(Family, nat), AddrParseError>,
            host: spec_fn(Seq<u8>) -> Result<(Family, Prefix), NetworkParseError>,
        |
            parses_addresses(address_parser, address) && parses_networks(host_parser, host)
                ==> any_cidr_is(r, #[trigger] network_text(s.spec_bytes(), address, host, false)),
{
    if text_equal(s, "any") {
        return Ok(AnyIpCidr::Any);
    }
    match rfind_byte(s.as_bytes(), SLASH) {
        None => match host_parser(s) {
            Ok(cidr) => Ok(AnyIpCidr::from(cidr)),
            Err(e) => Err(e),
        },
        Some(pos) => {
            let (head, tail) = split_around(s, pos);
            let addr = match address_parser(head) {
                Ok(addr) => addr,
                Err(e) => {
                    return Err(NetworkParseError::AddrParseError(e));
                },
            };
            let len = match parse_length(tail) {
                Ok(len) => len,
                Err(e) => {
                    return Err(NetworkParseError::NetworkLengthParseError(e));
                },
            };
            match IpInet::new(addr, len) {
                Ok(inet) => Ok(AnyIpCidr::from(inet.network())),
                Err(e) => Err(NetworkParseError::NetworkLengthTooLongError(e)),
            }
        },
    }
}

/// Parse `AnyIpCidr` with custom address parser
///
/// Similar to `parse_any_cidr` but ignores host bits in addresses.
pub fn parse_any_cidr_ignore_hostbits<AP>(s: &str, address_parser: AP) -> (r: Result<
    AnyIpCidr,
    NetworkParseError,
>) where AP: Fn(&str) -> Result<IpAddr, AddrParseError>
    requires
        forall|t: &str| call_requires(address_parser, (t,)),
    ensures
        is_any_text(s.spec_bytes()) ==> r == Ok::<_, NetworkParseError>(AnyIpCidr::Any),
        !is_any_text(s.spec_bytes()) ==> forall|
            address: spec_fn(Seq<u8>) -> Result<(Family, nat), AddrParseError>,
        |
            parses_addresses(address_parser, address) ==> any_cidr_is(
                r,
                #[trigger] network_text(
                    s.spec_bytes(),
                    address,
                    single_of(address),
                    false,
                ),
            ),
{
    if text_equal(s, "any") {
        return Ok(AnyIpCidr::Any);
    }
    match rfind_byte(s.as_bytes(), SLASH) {
        None => match address_parser(s) {
            Ok(addr) => Ok(AnyIpCidr::from(IpCidr::new_host(addr))),
            Err(e) => Err(NetworkParseError::AddrParseError(e)),
        },
        Some(pos) => {
            let (head, tail) = split_around(s, pos);
            let addr = match address_parser(head) {
                Ok(addr) => addr,
                Err(e) => {
                    return Err(NetworkParseError::AddrParseError(e));
                },
            };
            let len = match parse_length(tail) {
                Ok(len) => len,
                Err(e) => {
                    return Err(NetworkParseError::NetworkLengthParseError(e));
                },
            };
            match IpInet::new(addr, len) {
                Ok(inet) => Ok(AnyIpCidr::from(inet.network())),
                Err(e) => Err(NetworkParseError::NetworkLengthTooLongError(e)),
            }
        },
    }
}

/// Parse `Inet` with custom address and network (when no '/' separator was found) parser
///
/// If a '/' is found, parse trailing number as prefix length and leading address with `address_parser`.
/// Otherwise parse with `host_parser`.
pub fn parse_inet_full<I, AP, HP>(s: &str, address_parser: AP, host_parser: HP) -> (r: Result<
    I,
    NetworkParseError,
>) where
    I: Inet,
    AP: FnOnce(&str) -> Result<I::Address, AddrParseError>,
    HP: FnOnce(&str) -> Result<I, NetworkParseError>,

    requires
        forall|t: &str| call_requires(address_parser, (t,)),
        forall|t: &str| call_requires(host_parser, (t,)),
    ensures
        forall|
            address: spec_fn(Seq<u8>) -> Result<(Family, nat), AddrParseError>,
            host: spec_fn(Seq<u8>) -> Result<(Family, Prefix), NetworkParseError>,
        |
            parses_addresses(address_parser, address) && parses_hosts(host_parser, host)
                ==> inet_is(r, #[trigger] host_text(s.spec_bytes(), address, host)),
{
    match rfind_byte(s.as_bytes(), SLASH) {
        None => host_parser(s),
        Some(pos) => {
            let (head, tail) = split_around(s, pos);
            let addr = match address_parser(head) {
                Ok(addr) => addr,
                Err(e) => {
                    return Err(NetworkParseError::AddrParseError(e));
                },
            };
            let len = match parse_length(tail) {
                Ok(len) => len,
                Err(e) => {
                    return Err(NetworkParseError::NetworkLengthParseError(e));
                },
            };
            match I::new(addr, len) {
                Ok(inet) => Ok(inet),
                Err(e) => Err(NetworkParseError::NetworkLengthTooLongError(e)),
            }
        },
    }
}

/// Parse `Inet` with custom address parser
///
/// If a '/' is found, parse trailing number as prefix length and leading address with `address_parser`.
/// Otherwise parse `address_parser` and treat as host (maximum prefix length).
pub fn parse_inet<I, AP>(s: &str, address_parser: AP) -> (r: Result<I, NetworkParseError>) where
    I: Inet,
    AP: Fn(&str) -> Result<I::Address, AddrParseError>,

    requires
        forall|t: &str| call_requires(address_parser, (t,)),
    ensures
        forall|address: spec_fn(Seq<u8>) -> Result<(Family, nat), AddrParseError>|
            parses_addresses(address_parser, address) ==> inet_is(
                r,
                #[trigger] host_text(s.spec_bytes(), address, single_of(address)),
            ),
{
    match rfind_byte(s.as_bytes(), SLASH) {
        None => match address_parser(s) {
            Ok(addr) => Ok(I::new_host(addr)),
            Err(e) => Err(NetworkParseError::AddrParseError(e)),
        },
        Some(pos) => {
            let (head, tail) = split_around(s, pos);
            let addr = match address_parser(head) {
                Ok(addr) => addr,
                Err(e) => {
                    return Err(NetworkParseError::AddrParseError(e));
                },
            };
            let len = match parse_length(tail) {
                Ok(len) => len,
                Err(e) => {
                    return Err(NetworkParseError::NetworkLengthParseError(e));
                },
            };
            match I::new(addr, len) {
                Ok(inet) => Ok(inet),
                Err(e) => Err(NetworkParseError::NetworkLengthTooLongError(e)),
            }
        },
    }
}

} // verus!
