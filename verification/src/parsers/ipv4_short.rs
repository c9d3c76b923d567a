//! Short forms of IPv4 networks: the octets that a network needs, without
//! those that are zero anyway.

use vstd::prelude::*;
use vstd::string::StringSliceAdditionalSpecFns;
use super::combinators::{
    any_cidr_is,
    cidr_is,
    is_any_text,
    network_text,
    parse_any_cidr_full,
    parse_cidr_full,
    parses_addresses,
    parses_networks,
};
use crate::addr_text::{ip_from_str, ip_value, ipv4_from_str, ipv4_value, DOT};
use crate::address::{octets_value, Ipv4Addr};
use crate::cidr::{AnyIpCidr, IpCidr, Ipv4Cidr};
use crate::errors::{AddrParseError, NetworkParseError};
use crate::family::Family;
use crate::internal_traits::{PrivCidr, PrivUnspecAddress};
use crate::prefix_math::{has_zero_host_part, Prefix};
use crate::text::{find_byte, index_of, lemma_index_of, parse_number, parse_number_in};

verus! {

/// The octets that a short text spells: numbers from 0 to 255 with dots
/// between them.
pub open spec fn short_fields(s: Seq<u8>) -> Option<Seq<u8>>
    decreases s.len(),
{
    let d = index_of(s, DOT);
    if 0 <= d < s.len() {
        match (parse_number(s.take(d), 10, 256), short_fields(s.skip(d + 1))) {
            (Ok(v), Some(rest)) => Some(seq![v as u8] + rest),
            _ => None,
        }
    } else {
        match parse_number(s, 10, 256) {
            Ok(v) => Some(seq![v as u8]),
            Err(_) => None,
        }
    }
}

/// The network that a short text spells: one to four octets, which are
/// the first octets of the address; the others are zero, and the network
/// length is the number of bits of the octets that are there.
pub open spec fn short_network(s: Seq<u8>) -> Option<Prefix> {
    match short_fields(s) {
        Some(f) => if f.len() <= 4 {
            Some(
                Prefix {
                    address: octets_value(
                        f[0],
                        if f.len() > 1 {
                            f[1]
                        } else {
                            0
                        },
                        if f.len() > 2 {
                            f[2]
                        } else {
                            0
                        },
                        if f.len() > 3 {
                            f[3]
                        } else {
                            0
                        },
                    ),
                    length: 8 * f.len(),
                },
            )
        } else {
            None
        },
        None => None,
    }
}

/// Octets that a short text spells are at least one.
proof fn lemma_short_fields_len(s: Seq<u8>)
    ensures
        short_fields(s) is Some ==> short_fields(s)->Some_0.len() >= 1,
    decreases s.len(),
{
    let d = index_of(s, DOT);
    if 0 <= d < s.len() {
        lemma_short_fields_len(s.skip(d + 1));
    }
}

/// An address whose last octets are zero is the first address of the
/// network that the octets before them make.
proof fn lemma_short_zero_host(a: u8, b: u8, c: u8, d: u8, count: nat)
    requires
        1 <= count <= 4,
        count < 2 ==> b == 0,
        count < 3 ==> c == 0,
        count < 4 ==> d == 0,
    ensures
        has_zero_host_part(octets_value(a, b, c, d), 32, 8 * count),
{
    crate::bit_math::lemma_pow2_widths();
    let v = octets_value(a, b, c, d) as int;
    if count == 1 {
        assert(v % 0x100_0000 == 0) by (nonlinear_arith)
            requires
                v == a * 0x100_0000,
        ;
    } else if count == 2 {
        assert(v % 0x1_0000 == 0) by (nonlinear_arith)
            requires
                v == (a * 0x100 + b) * 0x1_0000,
        ;
    } else if count == 3 {
        assert(v % 0x100 == 0) by (nonlinear_arith)
            requires
                v == (a * 0x1_0000 + b * 0x100 + c) * 0x100,
        ;
    } else {
    }
}

/// Parses normal IPv4 addresses as host networks, and short forms as
/// networks whose length tells how many octets were present.
pub fn _parse_short_ipv4_address_as_cidr(s: &str) -> (r: Option<Ipv4Cidr>)
    ensures
        r is Some <==> short_network(s.spec_bytes()) is Some,
        r is Some ==> r->Some_0@ == short_network(s.spec_bytes())->Some_0,
{
    let bytes = s.as_bytes();
    let to = bytes.len();
    let mut octets: [u8; 4] = [0u8;4];
    let mut count: usize = 0;
    let mut start: usize = 0;
    let ghost text = bytes@;
    let ghost mut found: Seq<u8> = Seq::empty();
    proof {
        assert(bytes@.subrange(0, to as int) =~= bytes@);
    }
    loop
        invariant
            start <= to == bytes@.len(),
            text == bytes@,
            text == s.spec_bytes(),
            count <= 4,
            found.len() == count,
            forall|j: int| 0 <= j < count ==> octets@[j] == found[j],
            forall|j: int| count <= j < 4 ==> octets@[j] == 0,
            short_fields(text) == match short_fields(bytes@.subrange(start as int, to as int)) {
                Some(rest) => Some(found + rest),
                None => None::<Seq<u8>>,
            },
        decreases to - start,
    {
        let ghost rest = bytes@.subrange(start as int, to as int);
        proof {
            lemma_short_fields_len(rest);
        }
        if count >= 4 {
            // too many octets
            return None;
        }
        let d = find_byte(bytes, start, to, DOT);
        proof {
            assert(rest.take(d - start) =~= bytes@.subrange(start as int, d as int));
            if d == to {
                assert(rest =~= bytes@.subrange(start as int, d as int));
            }
            lemma_index_of(rest, DOT);
        }
        // abort on invalid octet
        let octet = match parse_number_in(bytes, start, d, 10, 256) {
            Ok(octet) => octet as u8,
            Err(_) => {
                return None;
            },
        };
        octets[count] = octet;
        count += 1;
        if d < to {
            proof {
                assert(rest.skip(d - start + 1) =~= bytes@.subrange(d + 1, to as int));
                let more = short_fields(bytes@.subrange(d + 1, to as int));
                if more is Some {
                    assert(found.push(octet) + more->Some_0 =~= found + (seq![octet]
                        + more->Some_0));
                }
                found = found.push(octet);
            }
            start = d + 1;
        } else {
            proof {
                assert(found.push(octet) =~= found + seq![octet]);
                found = found.push(octet);
                lemma_short_zero_host(octets[0], octets[1], octets[2], octets[3], count as nat);
            }
            let bits = (count as u8) * 8;
            let addr = Ipv4Addr::new(octets[0], octets[1], octets[2], octets[3]);
            return match Ipv4Cidr::new(addr, bits) {
                Ok(cidr) => Some(cidr),
                Err(_) => None,
            };
        }
    }
}

/// What a text is as an IPv4 address in the strict form.
pub open spec fn strict_ipv4(t: Seq<u8>) -> Result<(Family, nat), AddrParseError> {
    match ipv4_value(t) {
        Some(v) => Ok((Family::Ipv4, v)),
        None => Err(AddrParseError::Ipv4),
    }
}

/// What a text is as an IP address in the strict form.
pub open spec fn strict_ip(t: Seq<u8>) -> Result<(Family, nat), AddrParseError> {
    match ip_value(t) {
        Some(a) => Ok(a),
        None => Err(AddrParseError::Ip),
    }
}

/// What a text is as a short IPv4 network, or else as an IPv4 address.
pub open spec fn short_ipv4_cidr_of(t: Seq<u8>) -> Result<(Family, Prefix), NetworkParseError> {
    match short_network(t) {
        Some(n) => Ok((Family::Ipv4, n)),
        None => match ipv4_value(t) {
            Some(v) => Ok((Family::Ipv4, Prefix { address: v, length: 32 })),
            None => Err(NetworkParseError::AddrParseError(AddrParseError::Ipv4)),
        },
    }
}

/// What a text is as an IP address, or else as a short IPv4 network.
pub open spec fn short_ip_cidr_of(t: Seq<u8>) -> Result<(Family, Prefix), NetworkParseError> {
    match ip_value(t) {
        Some((family, v)) => Ok((family, Prefix { address: v, length: family.width() })),
        None => match short_network(t) {
            Some(n) => Ok((Family::Ipv4, n)),
            None => Err(NetworkParseError::AddrParseError(AddrParseError::Ip)),
        },
    }
}

/// Parse "short" IPv4 addresses as networks with octet-aligned length
///
/// * parse `"10"` as `10.0.0.0/8`
/// * parse `"192.168"` as `192.168.0.0/16`
/// * parse `"192.0.2"` as `192.0.2.0/24`
/// * parse `"127"` as `127.0.0.0/8`
/// * parse `"127.0.0.1"` as `127.0.0.1/32`
///
/// The returned prefix length indicates how many octets were present.
///
/// This is very different from `inet_addr` which would
/// interpret `"192.168"` as `192.0.0.168`!
///
/// This function doesn't accept normal CIDR notations, so you will probably
/// need to combine it with other functions.
pub fn parse_short_ipv4_address_as_cidr(s: &str) -> (r: Result<Ipv4Cidr, NetworkParseError>)
    ensures
        cidr_is(r, short_ipv4_cidr_of(s.spec_bytes())),
{
    match _parse_short_ipv4_address_as_cidr(s) {
        Some(n) => Ok(n),
        None => {
            // address parser should fail here (to generate proper error result)
            // (but if it works the result should actually be correct)
            match ipv4_from_str(s) {
                Ok(addr) => Ok(Ipv4Cidr::new_host(addr)),
                Err(e) => Err(NetworkParseError::AddrParseError(e)),
            }
        },
    }
}

/// Parses normal IPv4 CIDR notations or short forms via `parse_short_ipv4_address_as_cidr`
pub fn parse_short_ipv4_cidr(s: &str) -> (r: Result<Ipv4Cidr, NetworkParseError>)
    ensures
        cidr_is(
            r,
            network_text(
                s.spec_bytes(),
                |t: Seq<u8>| strict_ipv4(t),
                |t: Seq<u8>| short_ipv4_cidr_of(t),
                true,
            ),
        ),
{
    let r = parse_cidr_full(s, ipv4_from_str, parse_short_ipv4_address_as_cidr);
    proof {
        let address = |t: Seq<u8>| strict_ipv4(t);
        let host = |t: Seq<u8>| short_ipv4_cidr_of(t);
        assert(parses_addresses(ipv4_from_str, address));
        assert(parses_networks(parse_short_ipv4_address_as_cidr, host));
        assert(cidr_is(r, network_text(s.spec_bytes(), address, host, true)));
    }
    r
}

/// Parses normal IP addresses as host addresses, and short IPv4 addresses via `parse_short_ipv4_address_as_cidr`
///
/// This function doesn't accept normal CIDR notations, so you will probably
/// need to combine it with other functions.
pub fn parse_short_ip_address_as_cidr(s: &str) -> (r: Result<IpCidr, NetworkParseError>)
    ensures
        cidr_is(r, short_ip_cidr_of(s.spec_bytes())),
{
    match ip_from_str(s) {
        Ok(a) => Ok(IpCidr::new_host(a)),
        // only try short IPv4 as fallback
        Err(e) => match _parse_short_ipv4_address_as_cidr(s) {
            Some(n) => Ok(IpCidr::V4(n)),
            None => Err(NetworkParseError::AddrParseError(e)),
        },
    }
}

/// Parses normal IP CIDR notations or short IPv4 forms via `parse_short_ipv4_address_as_cidr`
pub fn parse_short_ip_cidr(s: &str) -> (r: Result<IpCidr, NetworkParseError>)
    ensures
        cidr_is(
            r,
            network_text(
                s.spec_bytes(),
                |t: Seq<u8>| strict_ip(t),
                |t: Seq<u8>| short_ip_cidr_of(t),
                true,
            ),
        ),
{
    let r = parse_cidr_full(s, ip_from_str, parse_short_ip_address_as_cidr);
    proof {
        let address = |t: Seq<u8>| strict_ip(t);
        let host = |t: Seq<u8>| short_ip_cidr_of(t);
        assert(parses_addresses(ip_from_str, address));
        assert(parses_networks(parse_short_ip_address_as_cidr, host));
        assert(cidr_is(r, network_text(s.spec_bytes(), address, host, true)));
    }
    r
}

/// Parses normal IP CIDR notations, `"any"` or short IPv4 forms via `parse_short_ipv4_address_as_cidr`
pub fn parse_short_any_ip_cidr(s: &str) -> (r: Result<AnyIpCidr, NetworkParseError>)
    ensures
        is_any_text(s.spec_bytes()) ==> r == Ok::<_, NetworkParseError>(AnyIpCidr::Any),
        !is_any_text(s.spec_bytes()) ==> any_cidr_is(
            r,
            network_text(
                s.spec_bytes(),
                |t: Seq<u8>| strict_ip(t),
                |t: Seq<u8>| short_ip_cidr_of(t),
                true,
            ),
        ),
{
    let r = parse_any_cidr_full(s, ip_from_str, parse_short_ip_address_as_cidr);
    proof {
        let address = |t: Seq<u8>| strict_ip(t);
        let host = |t: Seq<u8>| short_ip_cidr_of(t);
        assert(parses_addresses(ip_from_str, address));
        assert(parses_networks(parse_short_ip_address_as_cidr, host));
        if !is_any_text(s.spec_bytes()) {
            assert(any_cidr_is(r, network_text(s.spec_bytes(), address, host, true)));
        }
    }
    r
}

} // verus!
