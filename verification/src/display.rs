//! The texts of addresses, networks, hosts, pairs, counts and errors.
//!
//! A network or host is written as its address, a `/` and its network
//! length.  In the plain form the `/` and the length are left out where
//! the length is the whole width of the address; the alternate form and
//! the form for debugging always hold them.

use vstd::prelude::*;
use vstd::string::StringSliceAdditionalSpecFns;
use crate::address::{octets_of, segments_of, IpAddr, Ipv4Addr, Ipv6Addr};
use crate::cidr::{AnyIpCidr, IpCidr, Ipv4Cidr, Ipv6Cidr};
use crate::errors::{
    AddrParseError,
    InetTupleError,
    NetworkLengthTooLongError,
    NetworkParseError,
    ParseIntError,
};
use crate::display_buffer::LONGEST_IPV6_CIDR;
use crate::family::Family;
use crate::inet::{IpInet, Ipv4Inet, Ipv6Inet};
use crate::inet_pair::{IpInetPair, Ipv4InetPair, Ipv6InetPair};
use crate::internal_traits::{PrivCidr, PrivInet, PrivInetPair, PrivUnspecAddress};
use crate::num::NumberOfAddresses;
use crate::prefix_math::Prefix;
use crate::text::{
    as_chars,
    ascii_to_string,
    decimal_text,
    hex_text,
    is_ascii_text,
    lemma_number_text_ascii,
    push_decimal,
    push_hex,
    push_text,
};

verus! {

/// The text of an IPv4 address: its four octets in decimal with dots
/// between them.
pub open spec fn ipv4_text(v: nat) -> Seq<u8> {
    let o = octets_of(v);
    decimal_text(o[0] as nat) + seq![0x2eu8] + decimal_text(o[1] as nat) + seq![0x2eu8]
        + decimal_text(o[2] as nat) + seq![0x2eu8] + decimal_text(o[3] as nat)
}

/// The number of segments from `i` on that are zero without a break.
pub open spec fn zero_run_at(segs: Seq<u16>, i: int) -> int
    decreases segs.len() - i,
{
    if 0 <= i < segs.len() && segs[i] == 0 {
        1 + zero_run_at(segs, i + 1)
    } else {
        0
    }
}

/// The place and the length of the longest run of zero segments from `i`
/// on, and of the leftmost one where there are several; the length is 0
/// where no segment is zero.
pub open spec fn longest_zero_run(segs: Seq<u16>, i: int) -> (int, int)
    decreases segs.len() - i,
{
    if 0 <= i < segs.len() {
        let later = longest_zero_run(segs, i + 1);
        if zero_run_at(segs, i) >= later.1 && zero_run_at(segs, i) > 0 {
            (i, zero_run_at(segs, i))
        } else {
            later
        }
    } else {
        (segs.len() as int, 0)
    }
}

/// The text of segments: each in hexadecimal, with colons between them.
pub open spec fn segments_text(segs: Seq<u16>) -> Seq<u8>
    decreases segs.len(),
{
    if segs.len() == 0 {
        Seq::empty()
    } else if segs.len() == 1 {
        hex_text(segs[0] as nat)
    } else {
        segments_text(segs.drop_last()) + seq![0x3au8] + hex_text(segs.last() as nat)
    }
}

/// Whether the segments are those of an IPv4 address that is written as an
/// IPv6 address: five that are zero, then one with all bits set.
pub open spec fn is_ipv4_mapped(segs: Seq<u16>) -> bool {
    segs[0] == 0 && segs[1] == 0 && segs[2] == 0 && segs[3] == 0 && segs[4] == 0 && segs[5]
        == 0xffff
}

/// The text of an IPv6 address: its eight segments in hexadecimal with
/// colons between them, where the longest run of two or more segments
/// that are zero is left out and leaves `::`; an IPv4 address that is
/// written as an IPv6 address is `::ffff:` and the IPv4 address.
pub open spec fn ipv6_text(v: nat) -> Seq<u8> {
    let segs = segments_of(v);
    if is_ipv4_mapped(segs) {
        "::ffff:".spec_bytes() + ipv4_text(segs[6] as nat * 0x1_0000 + segs[7] as nat)
    } else {
        let run = longest_zero_run(segs, 0);
        if run.1 > 1 {
            segments_text(segs.take(run.0)) + seq![0x3au8, 0x3au8] + segments_text(
                segs.skip(run.0 + run.1),
            )
        } else {
            segments_text(segs)
        }
    }
}

/// The text of an address of the family.
pub open spec fn address_text(family: Family, v: nat) -> Seq<u8> {
    match family {
        Family::Ipv4 => ipv4_text(v),
        Family::Ipv6 => ipv6_text(v),
    }
}

/// The text of a network or host: the address, and a `/` with the network
/// length unless the length is the width of the family and `alternate` is
/// not set.
pub open spec fn prefix_text(family: Family, prefix: Prefix, alternate: bool) -> Seq<u8> {
    if alternate || prefix.length != family.width() {
        address_text(family, prefix.address) + seq![0x2fu8] + decimal_text(prefix.length)
    } else {
        address_text(family, prefix.address)
    }
}

/// The text of a network or host of either family for debugging: `V4` or
/// `V6`, and in brackets the text with the network length.
pub open spec fn tagged_text(family: Family, prefix: Prefix) -> Seq<u8> {
    (match family {
        Family::Ipv4 => "V4(".spec_bytes(),
        Family::Ipv6 => "V6(".spec_bytes(),
    }) + prefix_text(family, prefix, true) + ")".spec_bytes()
}

/// The text of a pair: in brackets, the two hosts with `, ` between them.
pub open spec fn pair_text(family: Family, first: Prefix, second: Prefix) -> Seq<u8> {
    "(".spec_bytes() + prefix_text(family, first, false) + ", ".spec_bytes() + prefix_text(
        family,
        second,
        false,
    ) + ")".spec_bytes()
}

/// The text of a pair of one family for debugging: the name of its type,
/// and in braces the two hosts, each with its name and with the network
/// length.
pub open spec fn pair_debug_text(family: Family, first: Prefix, second: Prefix) -> Seq<u8> {
    (match family {
        Family::Ipv4 => "Ipv4InetPair { first: ".spec_bytes(),
        Family::Ipv6 => "Ipv6InetPair { first: ".spec_bytes(),
    }) + prefix_text(family, first, true) + ", second: ".spec_bytes() + prefix_text(
        family,
        second,
        true,
    ) + " }".spec_bytes()
}

/// The text of a pair of either family for debugging: `V4` or `V6`, and in
/// brackets the text of the pair for debugging.
pub open spec fn tagged_pair_debug_text(family: Family, first: Prefix, second: Prefix) -> Seq<u8> {
    (match family {
        Family::Ipv4 => "V4(".spec_bytes(),
        Family::Ipv6 => "V6(".spec_bytes(),
    }) + pair_debug_text(family, first, second) + ")".spec_bytes()
}

/// The name of a family.
pub open spec fn family_text(family: Family) -> Seq<u8> {
    match family {
        Family::Ipv4 => "Ipv4".spec_bytes(),
        Family::Ipv6 => "Ipv6".spec_bytes(),
    }
}

/// The text of the error for a network length that is too long.
pub open spec fn too_long_text(e: NetworkLengthTooLongError) -> Seq<u8> {
    "Network length ".spec_bytes() + decimal_text(e.0 as nat) + " is too long for ".spec_bytes()
        + family_text(e.1) + " (maximum: ".spec_bytes() + decimal_text(e.1.width())
        + ")".spec_bytes()
}

/// The text of the error for a text that is no address.
pub open spec fn addr_error_text(e: AddrParseError) -> Seq<u8> {
    match e {
        AddrParseError::Ip => "invalid IP address syntax".spec_bytes(),
        AddrParseError::Ipv4 => "invalid IPv4 address syntax".spec_bytes(),
        AddrParseError::Ipv6 => "invalid IPv6 address syntax".spec_bytes(),
    }
}

/// The text of the error for a text that is no number.
pub open spec fn int_error_text(e: ParseIntError) -> Seq<u8> {
    match e {
        ParseIntError::Empty => "cannot parse integer from empty string".spec_bytes(),
        ParseIntError::InvalidDigit => "invalid digit found in string".spec_bytes(),
        ParseIntError::PosOverflow => "number too large to fit in target type".spec_bytes(),
    }
}

/// The text of the error for a text that is no network.
pub open spec fn parse_error_text(e: NetworkParseError) -> Seq<u8> {
    match e {
        NetworkParseError::InvalidHostPart => "host part of address was not zero".spec_bytes(),
        NetworkParseError::AddrParseError(e) => "couldn't parse address in network: ".spec_bytes()
            + addr_error_text(e),
        NetworkParseError::NetworkLengthParseError(e) => "couldn't parse length in network: ".spec_bytes()
            + int_error_text(e),
        NetworkParseError::NetworkLengthTooLongError(e) => "invalid length for network: ".spec_bytes()
            + too_long_text(e),
    }
}

/// The text of the error for two addresses that make no pair.
pub open spec fn tuple_error_text(e: InetTupleError) -> Seq<u8> {
    match e {
        InetTupleError::NotInSharedNetwork => "addresses not in shared network".spec_bytes(),
        InetTupleError::NetworkLengthTooLongError(e) => "invalid length for network: ".spec_bytes()
            + too_long_text(e),
    }
}

/// The text of a count of addresses: the number in decimal.
pub open spec fn count_text(n: NumberOfAddresses) -> Seq<u8> {
    decimal_text(n@)
}

/// Writes the text of an IPv4 address at the end of `out`.
pub fn push_ipv4(out: &mut Vec<u8>, addr: Ipv4Addr)
    ensures
        final(out)@ == old(out)@ + ipv4_text(addr@),
{
    let o = addr.octets();
    push_decimal(out, o[0] as u128);
    out.push(0x2e);
    push_decimal(out, o[1] as u128);
    out.push(0x2e);
    push_decimal(out, o[2] as u128);
    out.push(0x2e);
    push_decimal(out, o[3] as u128);
    proof {
        assert(out@ =~= old(out)@ + ipv4_text(addr@));
    }
}

/// Writes the text of the segments from `from` to `to` at the end of `out`.
fn push_segments(out: &mut Vec<u8>, segs: &[u16; 8], from: usize, to: usize)
    requires
        from <= to <= 8,
    ensures
        final(out)@ == old(out)@ + segments_text(segs@.subrange(from as int, to as int)),
{
    let mut i = from;
    while i < to
        invariant
            from <= i <= to <= 8,
            out@ == old(out)@ + segments_text(segs@.subrange(from as int, i as int)),
        decreases to - i,
    {
        let ghost done = segs@.subrange(from as int, i as int);
        let ghost more = segs@.subrange(from as int, i + 1);
        proof {
            assert(more.drop_last() =~= done);
            assert(more.last() == segs@[i as int]);
        }
        if i > from {
            out.push(0x3a);
        }
        push_hex(out, segs[i] as u128);
        proof {
            assert(out@ =~= old(out)@ + segments_text(more));
        }
        i += 1;
    }
}

/// The place and the length of the longest run of zero segments.
fn find_zero_run(segs: &[u16; 8]) -> (run: (usize, usize))
    ensures
        (run.0 as int, run.1 as int) == longest_zero_run(segs@, 0),
        run.0 + run.1 <= 8,
{
    let mut best: (usize, usize) = (8, 0);
    let mut current: usize = 0;
    let mut i: usize = 8;
    while i > 0
        invariant
            i <= 8,
            current == zero_run_at(segs@, i as int),
            current <= 8 - i,
            (best.0 as int, best.1 as int) == longest_zero_run(segs@, i as int),
            best.0 + best.1 <= 8,
        decreases i,
    {
        i -= 1;
        if segs[i] == 0 {
            current += 1;
        } else {
            current = 0;
        }
        if current >= best.1 && current > 0 {
            best = (i, current);
        }
    }
    best
}

/// Writes the text of an IPv6 address at the end of `out`.
pub fn push_ipv6(out: &mut Vec<u8>, addr: Ipv6Addr)
    ensures
        final(out)@ == old(out)@ + ipv6_text(addr@),
{
    let segs = addr.segments();
    if segs[0] == 0 && segs[1] == 0 && segs[2] == 0 && segs[3] == 0 && segs[4] == 0 && segs[5]
        == 0xffff {
        push_text(out, "::ffff:");
        let ipv4 = Ipv4Addr::from_bits(((segs[6] as u32) << 16) | (segs[7] as u32));
        proof {
            lemma_join_segments(segs[6], segs[7]);
        }
        push_ipv4(out, ipv4);
        proof {
            assert(out@ =~= old(out)@ + ipv6_text(addr@));
        }
    } else {
        let (start, len) = find_zero_run(&segs);
        if len > 1 {
            push_segments(out, &segs, 0, start);
            out.push(0x3a);
            out.push(0x3a);
            push_segments(out, &segs, start + len, 8);
            proof {
                assert(segs@.take(start as int) =~= segs@.subrange(0, start as int));
                assert(segs@.skip(start + len) =~= segs@.subrange(start + len, 8));
                assert(out@ =~= old(out)@ + ipv6_text(addr@));
            }
        } else {
            push_segments(out, &segs, 0, 8);
            proof {
                assert(segs@ =~= segs@.subrange(0, 8));
            }
        }
    }
}

proof fn lemma_join_segments(hi: u16, lo: u16)
    by (bit_vector)
    ensures
        ((hi as u32) << 16) | (lo as u32) == hi * 0x1_0000 + lo,
{
}

/// Writes the text of an IP address at the end of `out`.
pub fn push_ip(out: &mut Vec<u8>, addr: IpAddr)
    ensures
        final(out)@ == old(out)@ + address_text(addr._family(), addr._value()),
{
    match addr {
        IpAddr::V4(a) => push_ipv4(out, a),
        IpAddr::V6(a) => push_ipv6(out, a),
    }
}

/// Writes the text of a network or host at the end of `out`.
pub fn push_prefix(out: &mut Vec<u8>, addr: IpAddr, len: u8, alternate: bool)
    ensures
        final(out)@ == old(out)@ + prefix_text(
            addr._family(),
            Prefix { address: addr._value(), length: len as nat },
            alternate,
        ),
{
    push_ip(out, addr);
    let width: u8 = match addr {
        IpAddr::V4(_) => 32,
        IpAddr::V6(_) => 128,
    };
    if alternate || len != width {
        out.push(0x2f);
        push_decimal(out, len as u128);
    }
    proof {
        assert(out@ =~= old(out)@ + prefix_text(
            addr._family(),
            Prefix { address: addr._value(), length: len as nat },
            alternate,
        ));
    }
}

/// The texts that are written as they stand are made of characters below
/// 128.
proof fn lemma_literals_ascii()
    ensures
        is_ascii_text("::ffff:".spec_bytes()),
        is_ascii_text("V4(".spec_bytes()),
        is_ascii_text("V6(".spec_bytes()),
        is_ascii_text(")".spec_bytes()),
        is_ascii_text("(".spec_bytes()),
        is_ascii_text(", ".spec_bytes()),
        is_ascii_text("any".spec_bytes()),
        is_ascii_text("Any".spec_bytes()),
        is_ascii_text("Ipv4".spec_bytes()),
        is_ascii_text("Ipv6".spec_bytes()),
        is_ascii_text("Ipv4InetPair { first: ".spec_bytes()),
        is_ascii_text("Ipv6InetPair { first: ".spec_bytes()),
        is_ascii_text(", second: ".spec_bytes()),
        is_ascii_text(" }".spec_bytes()),
        is_ascii_text("Network length ".spec_bytes()),
        is_ascii_text(" is too long for ".spec_bytes()),
        is_ascii_text(" (maximum: ".spec_bytes()),
        is_ascii_text("invalid IP address syntax".spec_bytes()),
        is_ascii_text("invalid IPv4 address syntax".spec_bytes()),
        is_ascii_text("invalid IPv6 address syntax".spec_bytes()),
        is_ascii_text("cannot parse integer from empty string".spec_bytes()),
        is_ascii_text("invalid digit found in string".spec_bytes()),
        is_ascii_text("number too large to fit in target type".spec_bytes()),
        is_ascii_text("host part of address was not zero".spec_bytes()),
        is_ascii_text("couldn't parse address in network: ".spec_bytes()),
        is_ascii_text("couldn't parse length in network: ".spec_bytes()),
        is_ascii_text("invalid length for network: ".spec_bytes()),
        is_ascii_text("addresses not in shared network".spec_bytes()),
{
    reveal_strlit("::ffff:");
    reveal_strlit("V4(");
    reveal_strlit("V6(");
    reveal_strlit(")");
    reveal_strlit("(");
    reveal_strlit(", ");
    reveal_strlit("any");
    reveal_strlit("Any");
    reveal_strlit("Ipv4");
    reveal_strlit("Ipv6");
    reveal_strlit("Ipv4InetPair { first: ");
    reveal_strlit("Ipv6InetPair { first: ");
    reveal_strlit(", second: ");
    reveal_strlit(" }");
    reveal_strlit("Network length ");
    reveal_strlit(" is too long for ");
    reveal_strlit(" (maximum: ");
    reveal_strlit("invalid IP address syntax");
    reveal_strlit("invalid IPv4 address syntax");
    reveal_strlit("invalid IPv6 address syntax");
    reveal_strlit("cannot parse integer from empty string");
    reveal_strlit("invalid digit found in string");
    reveal_strlit("number too large to fit in target type");
    reveal_strlit("host part of address was not zero");
    reveal_strlit("couldn't parse address in network: ");
    reveal_strlit("couldn't parse length in network: ");
    reveal_strlit("invalid length for network: ");
    reveal_strlit("addresses not in shared network");
    vstd::string::is_ascii_spec_bytes("::ffff:");
    vstd::string::is_ascii_spec_bytes("V4(");
    vstd::string::is_ascii_spec_bytes("V6(");
    vstd::string::is_ascii_spec_bytes(")");
    vstd::string::is_ascii_spec_bytes("(");
    vstd::string::is_ascii_spec_bytes(", ");
    vstd::string::is_ascii_spec_bytes("any");
    vstd::string::is_ascii_spec_bytes("Any");
    vstd::string::is_ascii_spec_bytes("Ipv4");
    vstd::string::is_ascii_spec_bytes("Ipv6");
    vstd::string::is_ascii_spec_bytes("Ipv4InetPair { first: ");
    vstd::string::is_ascii_spec_bytes("Ipv6InetPair { first: ");
    vstd::string::is_ascii_spec_bytes(", second: ");
    vstd::string::is_ascii_spec_bytes(" }");
    vstd::string::is_ascii_spec_bytes("Network length ");
    vstd::string::is_ascii_spec_bytes(" is too long for ");
    vstd::string::is_ascii_spec_bytes(" (maximum: ");
    vstd::string::is_ascii_spec_bytes("invalid IP address syntax");
    vstd::string::is_ascii_spec_bytes("invalid IPv4 address syntax");
    vstd::string::is_ascii_spec_bytes("invalid IPv6 address syntax");
    vstd::string::is_ascii_spec_bytes("cannot parse integer from empty string");
    vstd::string::is_ascii_spec_bytes("invalid digit found in string");
    vstd::string::is_ascii_spec_bytes("number too large to fit in target type");
    vstd::string::is_ascii_spec_bytes("host part of address was not zero");
    vstd::string::is_ascii_spec_bytes("couldn't parse address in network: ");
    vstd::string::is_ascii_spec_bytes("couldn't parse length in network: ");
    vstd::string::is_ascii_spec_bytes("invalid length for network: ");
    vstd::string::is_ascii_spec_bytes("addresses not in shared network");
}

/// The text of segments is made of characters below 128.
proof fn lemma_segments_text_ascii(segs: Seq<u16>)
    ensures
        is_ascii_text(segments_text(segs)),
    decreases segs.len(),
{
    if segs.len() == 0 {
    } else if segs.len() == 1 {
        lemma_number_text_ascii(segs[0] as nat);
    } else {
        lemma_segments_text_ascii(segs.drop_last());
        lemma_number_text_ascii(segs.last() as nat);
        lemma_ascii_concat(segments_text(segs.drop_last()), seq![0x3au8]);
        lemma_ascii_concat(
            segments_text(segs.drop_last()) + seq![0x3au8],
            hex_text(segs.last() as nat),
        );
    }
}

/// Two texts of characters below 128 make one when they are joined.
pub proof fn lemma_ascii_concat(a: Seq<u8>, b: Seq<u8>)
    requires
        is_ascii_text(a),
        is_ascii_text(b),
    ensures
        is_ascii_text(a + b),
{
    assert forall|j: int| 0 <= j < (a + b).len() implies #[trigger] (a + b)[j] < 0x80 by {
        if j < a.len() {
            assert((a + b)[j] == a[j]);
        } else {
            assert((a + b)[j] == b[j - a.len()]);
        }
    }
}

/// The text of an IPv4 address is made of characters below 128.
pub proof fn lemma_ipv4_text_ascii(v: nat)
    ensures
        is_ascii_text(ipv4_text(v)),
{
    let o = octets_of(v);
    lemma_number_text_ascii(o[0] as nat);
    lemma_number_text_ascii(o[1] as nat);
    lemma_number_text_ascii(o[2] as nat);
    lemma_number_text_ascii(o[3] as nat);
    let dot = seq![0x2eu8];
    let t0 = decimal_text(o[0] as nat);
    lemma_ascii_concat(t0, dot);
    lemma_ascii_concat(t0 + dot, decimal_text(o[1] as nat));
    lemma_ascii_concat(t0 + dot + decimal_text(o[1] as nat), dot);
    lemma_ascii_concat(t0 + dot + decimal_text(o[1] as nat) + dot, decimal_text(o[2] as nat));
    lemma_ascii_concat(
        t0 + dot + decimal_text(o[1] as nat) + dot + decimal_text(o[2] as nat),
        dot,
    );
    lemma_ascii_concat(
        t0 + dot + decimal_text(o[1] as nat) + dot + decimal_text(o[2] as nat) + dot,
        decimal_text(o[3] as nat),
    );
}

/// The text of an IPv6 address is made of characters below 128.
pub proof fn lemma_ipv6_text_ascii(v: nat)
    ensures
        is_ascii_text(ipv6_text(v)),
{
    lemma_literals_ascii();
    let segs = segments_of(v);
    if is_ipv4_mapped(segs) {
        let m = segs[6] as nat * 0x1_0000 + segs[7] as nat;
        lemma_ipv4_text_ascii(m);
        lemma_ascii_concat("::ffff:".spec_bytes(), ipv4_text(m));
    } else {
        let run = longest_zero_run(segs, 0);
        lemma_segments_text_ascii(segs);
        lemma_segments_text_ascii(segs.take(run.0));
        lemma_segments_text_ascii(segs.skip(run.0 + run.1));
        let colons = seq![0x3au8, 0x3au8];
        lemma_ascii_concat(segments_text(segs.take(run.0)), colons);
        lemma_ascii_concat(
            segments_text(segs.take(run.0)) + colons,
            segments_text(segs.skip(run.0 + run.1)),
        );
    }
}

/// The texts of addresses, networks and hosts are made of characters
/// below 128.
pub proof fn lemma_texts_ascii(family: Family, prefix: Prefix, alternate: bool)
    ensures
        is_ascii_text(ipv4_text(prefix.address)),
        is_ascii_text(ipv6_text(prefix.address)),
        is_ascii_text(address_text(family, prefix.address)),
        is_ascii_text(prefix_text(family, prefix, alternate)),
        is_ascii_text(prefix_text(family, prefix, true)),
        is_ascii_text(tagged_text(family, prefix)),
{
    lemma_literals_ascii();
    lemma_ipv4_text_ascii(prefix.address);
    lemma_ipv6_text_ascii(prefix.address);
    lemma_number_text_ascii(prefix.length);
    let a = address_text(family, prefix.address);
    let slash = seq![0x2fu8];
    lemma_ascii_concat(a, slash);
    lemma_ascii_concat(a + slash, decimal_text(prefix.length));
    let tag = match family {
        Family::Ipv4 => "V4(".spec_bytes(),
        Family::Ipv6 => "V6(".spec_bytes(),
    };
    lemma_ascii_concat(tag, prefix_text(family, prefix, true));
    lemma_ascii_concat(tag + prefix_text(family, prefix, true), ")".spec_bytes());
}

/// The text of a pair is made of characters below 128.
pub proof fn lemma_pair_text_ascii(family: Family, first: Prefix, second: Prefix)
    ensures
        is_ascii_text(pair_text(family, first, second)),
{
    lemma_literals_ascii();
    lemma_texts_ascii(family, first, false);
    lemma_texts_ascii(family, second, false);
    let a = "(".spec_bytes();
    let b = prefix_text(family, first, false);
    let c = ", ".spec_bytes();
    let d = prefix_text(family, second, false);
    lemma_ascii_concat(a, b);
    lemma_ascii_concat(a + b, c);
    lemma_ascii_concat(a + b + c, d);
    lemma_ascii_concat(a + b + c + d, ")".spec_bytes());
}

/// The text of a number below 1000 has at most three digits in decimal,
/// and that of a number below 65536 at most four in hexadecimal.
proof fn lemma_number_text_len(n: nat)
    ensures
        n < 1000 ==> decimal_text(n).len() <= 3,
        n < 0x1_0000 ==> hex_text(n).len() <= 4,
{
    reveal_with_fuel(decimal_text, 4);
    reveal_with_fuel(hex_text, 5);
}

/// The text of segments has at most four digits for each segment and a
/// colon between two of them.
proof fn lemma_segments_text_len(segs: Seq<u16>)
    ensures
        segments_text(segs).len() <= 5 * segs.len(),
        segs.len() > 0 ==> segments_text(segs).len() + 1 <= 5 * segs.len(),
    decreases segs.len(),
{
    if segs.len() == 0 {
    } else if segs.len() == 1 {
        lemma_number_text_len(segs[0] as nat);
    } else {
        lemma_segments_text_len(segs.drop_last());
        lemma_number_text_len(segs.last() as nat);
    }
}

/// A run of zero segments, and the longest one, lies within the segments.
proof fn lemma_zero_run_bounds(segs: Seq<u16>, i: int)
    requires
        0 <= i <= segs.len(),
    ensures
        0 <= zero_run_at(segs, i) <= segs.len() - i,
        i <= longest_zero_run(segs, i).0,
        0 <= longest_zero_run(segs, i).1,
        longest_zero_run(segs, i).0 + longest_zero_run(segs, i).1 <= segs.len(),
    decreases segs.len() - i,
{
    if i < segs.len() {
        lemma_zero_run_bounds(segs, i + 1);
    }
}

/// No text of a network or host is longer than the longest one, that of
/// `V6(ffff:ffff:ffff:ffff:ffff:ffff:ffff:ffff/128)`: an address has at
/// most 39 characters, with its network length at most 43, and with the
/// name of its family around it at most 47.
pub proof fn lemma_texts_fit(family: Family, prefix: Prefix, alternate: bool)
    requires
        prefix.length <= family.width(),
    ensures
        address_text(family, prefix.address).len() <= 39,
        prefix_text(family, prefix, alternate).len() <= 43,
        tagged_text(family, prefix).len() <= LONGEST_IPV6_CIDR,
{
    lemma_literal_lens();
    lemma_number_text_len(prefix.length);
    lemma_ipv4_text_len(prefix.address);
    lemma_ipv6_text_len(prefix.address);
    let a = address_text(family, prefix.address);
    let n = decimal_text(prefix.length);
    assert(prefix_text(family, prefix, true) == a + seq![0x2fu8] + n);
    assert((a + seq![0x2fu8] + n).len() == a.len() + 1 + n.len());
}

/// How long the texts around an address are.
proof fn lemma_literal_lens()
    ensures
        "::ffff:".spec_bytes().len() == 7,
        "V4(".spec_bytes().len() == 3,
        "V6(".spec_bytes().len() == 3,
        ")".spec_bytes().len() == 1,
{
    reveal_strlit("::ffff:");
    reveal_strlit("V4(");
    reveal_strlit("V6(");
    reveal_strlit(")");
    vstd::string::is_ascii_spec_bytes("::ffff:");
    vstd::string::is_ascii_spec_bytes("V4(");
    vstd::string::is_ascii_spec_bytes("V6(");
    vstd::string::is_ascii_spec_bytes(")");
}

/// The text of an IPv6 address has at most 39 characters.
proof fn lemma_ipv6_text_len(v: nat)
    ensures
        ipv6_text(v).len() <= 39,
{
    let segs = segments_of(v);
    assert(segs.len() == 8);
    if is_ipv4_mapped(segs) {
        lemma_literal_lens();
        lemma_ipv4_text_len(segs[6] as nat * 0x1_0000 + segs[7] as nat);
    } else {
        lemma_zero_run_bounds(segs, 0);
        let run = longest_zero_run(segs, 0);
        if run.1 > 1 {
            let head = segs.take(run.0);
            let tail = segs.skip(run.0 + run.1);
            lemma_segments_text_len(head);
            lemma_segments_text_len(tail);
            assert(head.len() + tail.len() <= 6);
            assert(ipv6_text(v) == segments_text(head) + seq![0x3au8, 0x3au8] + segments_text(tail));
        } else {
            lemma_segments_text_len(segs);
        }
    }
}

/// The text of an IPv4 address has at most 15 characters.
proof fn lemma_ipv4_text_len(v: nat)
    ensures
        ipv4_text(v).len() <= 15,
{
    let o = octets_of(v);
    lemma_number_text_len(o[0] as nat);
    lemma_number_text_len(o[1] as nat);
    lemma_number_text_len(o[2] as nat);
    lemma_number_text_len(o[3] as nat);
    let a = decimal_text(o[0] as nat);
    let b = decimal_text(o[1] as nat);
    let c = decimal_text(o[2] as nat);
    let d = decimal_text(o[3] as nat);
    let dot = seq![0x2eu8];
    assert(ipv4_text(v) == a + dot + b + dot + c + dot + d);
    assert((a + dot + b + dot + c + dot + d).len() == a.len() + b.len() + c.len() + d.len() + 3);
}

/// The texts of a pair for debugging are made of characters below 128.
pub proof fn lemma_pair_debug_text_ascii(family: Family, first: Prefix, second: Prefix)
    ensures
        is_ascii_text(pair_debug_text(family, first, second)),
        is_ascii_text(tagged_pair_debug_text(family, first, second)),
{
    lemma_literals_ascii();
    lemma_texts_ascii(family, first, true);
    lemma_texts_ascii(family, second, true);
    let a = match family {
        Family::Ipv4 => "Ipv4InetPair { first: ".spec_bytes(),
        Family::Ipv6 => "Ipv6InetPair { first: ".spec_bytes(),
    };
    let b = prefix_text(family, first, true);
    let c = ", second: ".spec_bytes();
    let d = prefix_text(family, second, true);
    lemma_ascii_concat(a, b);
    lemma_ascii_concat(a + b, c);
    lemma_ascii_concat(a + b + c, d);
    lemma_ascii_concat(a + b + c + d, " }".spec_bytes());
    let t = match family {
        Family::Ipv4 => "V4(".spec_bytes(),
        Family::Ipv6 => "V6(".spec_bytes(),
    };
    lemma_ascii_concat(t, pair_debug_text(family, first, second));
    lemma_ascii_concat(t + pair_debug_text(family, first, second), ")".spec_bytes());
}

/// The texts of errors are made of characters below 128.
pub proof fn lemma_error_texts_ascii(e: NetworkLengthTooLongError)
    ensures
        is_ascii_text(too_long_text(e)),
        is_ascii_text("invalid length for network: ".spec_bytes() + too_long_text(e)),
        forall|e: AddrParseError| is_ascii_text(#[trigger] addr_error_text(e)),
        forall|e: ParseIntError| is_ascii_text(#[trigger] int_error_text(e)),
        forall|e: AddrParseError|
            is_ascii_text(
                "couldn't parse address in network: ".spec_bytes() + #[trigger] addr_error_text(e),
            ),
        forall|e: ParseIntError|
            is_ascii_text(
                "couldn't parse length in network: ".spec_bytes() + #[trigger] int_error_text(e),
            ),
{
    lemma_literals_ascii();
    lemma_number_text_ascii(e.0 as nat);
    lemma_number_text_ascii(e.1.width());
    let a = "Network length ".spec_bytes();
    let b = decimal_text(e.0 as nat);
    let c = " is too long for ".spec_bytes();
    let d = family_text(e.1);
    let f = " (maximum: ".spec_bytes();
    let g = decimal_text(e.1.width());
    lemma_ascii_concat(a, b);
    lemma_ascii_concat(a + b, c);
    lemma_ascii_concat(a + b + c, d);
    lemma_ascii_concat(a + b + c + d, f);
    lemma_ascii_concat(a + b + c + d + f, g);
    lemma_ascii_concat(a + b + c + d + f + g, ")".spec_bytes());
    lemma_ascii_concat("invalid length for network: ".spec_bytes(), too_long_text(e));
    assert forall|e: AddrParseError|
        is_ascii_text(
            "couldn't parse address in network: ".spec_bytes() + #[trigger] addr_error_text(e),
        ) by {
        lemma_ascii_concat("couldn't parse address in network: ".spec_bytes(), addr_error_text(e));
    }
    assert forall|e: ParseIntError|
        is_ascii_text(
            "couldn't parse length in network: ".spec_bytes() + #[trigger] int_error_text(e),
        ) by {
        lemma_ascii_concat("couldn't parse length in network: ".spec_bytes(), int_error_text(e));
    }
}

impl Ipv4Addr {
    /// The text of the address.
    pub fn to_string(&self) -> (s: String)
        ensures
            s@ == as_chars(ipv4_text(self@)),
    {
        let mut out: Vec<u8> = Vec::new();
        push_ipv4(&mut out, *self);
        proof {
            lemma_texts_ascii(Family::Ipv4, Prefix { address: self@, length: 0 }, false);
            assert(out@ =~= ipv4_text(self@));
        }
        ascii_to_string(&out)
    }
}

impl Ipv6Addr {
    /// The text of the address.
    pub fn to_string(&self) -> (s: String)
        ensures
            s@ == as_chars(ipv6_text(self@)),
    {
        let mut out: Vec<u8> = Vec::new();
        push_ipv6(&mut out, *self);
        proof {
            lemma_texts_ascii(Family::Ipv6, Prefix { address: self@, length: 0 }, false);
            assert(out@ =~= ipv6_text(self@));
        }
        ascii_to_string(&out)
    }
}

impl IpAddr {
    /// The text of the address.
    pub fn to_string(&self) -> (s: String)
        ensures
            s@ == as_chars(address_text(self._family(), self._value())),
    {
        match self {
            IpAddr::V4(a) => a.to_string(),
            IpAddr::V6(a) => a.to_string(),
        }
    }
}

/// The text of a network or host with the given address and length.
fn prefix_to_string(addr: IpAddr, len: u8, alternate: bool) -> (s: String)
    ensures
        s@ == as_chars(
            prefix_text(
                addr._family(),
                Prefix { address: addr._value(), length: len as nat },
                alternate,
            ),
        ),
{
    let mut out: Vec<u8> = Vec::new();
    push_prefix(&mut out, addr, len, alternate);
    proof {
        let p = Prefix { address: addr._value(), length: len as nat };
        lemma_texts_ascii(addr._family(), p, alternate);
        assert(out@ =~= prefix_text(addr._family(), p, alternate));
    }
    ascii_to_string(&out)
}

/// The text of a network or host of either family for debugging.
fn tagged_to_string(addr: IpAddr, len: u8) -> (s: String)
    ensures
        s@ == as_chars(
            tagged_text(addr._family(), Prefix { address: addr._value(), length: len as nat }),
        ),
{
    let mut out: Vec<u8> = Vec::new();
    match addr {
        IpAddr::V4(_) => push_text(&mut out, "V4("),
        IpAddr::V6(_) => push_text(&mut out, "V6("),
    }
    push_prefix(&mut out, addr, len, true);
    push_text(&mut out, ")");
    proof {
        let p = Prefix { address: addr._value(), length: len as nat };
        lemma_texts_ascii(addr._family(), p, true);
        assert(out@ =~= tagged_text(addr._family(), p));
    }
    ascii_to_string(&out)
}

impl Ipv4Cidr {
    /// The text of the network: the address alone where the network is one
    /// address, else the address, a `/` and the network length.
    pub fn to_string(&self) -> (s: String)
        ensures
            s@ == as_chars(prefix_text(Family::Ipv4, self@, false)),
    {
        prefix_to_string(IpAddr::V4(self.first_address()), self.network_length(), false)
    }

    /// The text of the network with the network length in any case.
    pub fn to_string_alternate(&self) -> (s: String)
        ensures
            s@ == as_chars(prefix_text(Family::Ipv4, self@, true)),
    {
        prefix_to_string(IpAddr::V4(self.first_address()), self.network_length(), true)
    }

    /// The text of the network for debugging: with the network length in
    /// any case.
    pub fn to_debug_string(&self) -> (s: String)
        ensures
            s@ == as_chars(prefix_text(Family::Ipv4, self@, true)),
    {
        prefix_to_string(IpAddr::V4(self.first_address()), self.network_length(), true)
    }
}

impl Ipv6Cidr {
    /// The text of the network: the address alone where the network is one
    /// address, else the address, a `/` and the network length.
    pub fn to_string(&self) -> (s: String)
        ensures
            s@ == as_chars(prefix_text(Family::Ipv6, self@, false)),
    {
        prefix_to_string(IpAddr::V6(self.first_address()), self.network_length(), false)
    }

    /// The text of the network with the network length in any case.
    pub fn to_string_alternate(&self) -> (s: String)
        ensures
            s@ == as_chars(prefix_text(Family::Ipv6, self@, true)),
    {
        prefix_to_string(IpAddr::V6(self.first_address()), self.network_length(), true)
    }

    /// The text of the network for debugging: with the network length in
    /// any case.
    pub fn to_debug_string(&self) -> (s: String)
        ensures
            s@ == as_chars(prefix_text(Family::Ipv6, self@, true)),
    {
        prefix_to_string(IpAddr::V6(self.first_address()), self.network_length(), true)
    }
}

impl IpCidr {
    /// The text of the network: the address alone where the network is one
    /// address, else the address, a `/` and the network length.
    pub fn to_string(&self) -> (s: String)
        ensures
            s@ == as_chars(prefix_text(self._family(), self._prefix(), false)),
    {
        prefix_to_string(self.first_address(), self.network_length(), false)
    }

    /// The text of the network with the network length in any case.
    pub fn to_string_alternate(&self) -> (s: String)
        ensures
            s@ == as_chars(prefix_text(self._family(), self._prefix(), true)),
    {
        prefix_to_string(self.first_address(), self.network_length(), true)
    }

    /// The text of the network for debugging: `V4` or `V6`, and in
    /// brackets the text with the network length.
    pub fn to_debug_string(&self) -> (s: String)
        ensures
            s@ == as_chars(tagged_text(self._family(), self._prefix())),
    {
        tagged_to_string(self.first_address(), self.network_length())
    }
}

impl AnyIpCidr {
    /// The text of the value: `any`, or the text of the network.
    pub fn to_string(&self) -> (s: String)
        ensures
            self.network() is None ==> s@ == as_chars("any".spec_bytes()),
            self.network() is Some ==> s@ == as_chars(
                prefix_text(
                    self.network()->Some_0._family(),
                    self.network()->Some_0._prefix(),
                    false,
                ),
            ),
    {
        match self {
            AnyIpCidr::Any => {
                let mut out: Vec<u8> = Vec::new();
                push_text(&mut out, "any");
                proof {
                    lemma_literals_ascii();
                    assert(out@ =~= "any".spec_bytes());
                }
                ascii_to_string(&out)
            },
            AnyIpCidr::V4(c) => c.to_string(),
            AnyIpCidr::V6(c) => c.to_string(),
        }
    }

    /// The text of the value with the network length in any case.
    pub fn to_string_alternate(&self) -> (s: String)
        ensures
            self.network() is None ==> s@ == as_chars("any".spec_bytes()),
            self.network() is Some ==> s@ == as_chars(
                prefix_text(
                    self.network()->Some_0._family(),
                    self.network()->Some_0._prefix(),
                    true,
                ),
            ),
    {
        match self {
            AnyIpCidr::Any => {
                let mut out: Vec<u8> = Vec::new();
                push_text(&mut out, "any");
                proof {
                    lemma_literals_ascii();
                    assert(out@ =~= "any".spec_bytes());
                }
                ascii_to_string(&out)
            },
            AnyIpCidr::V4(c) => c.to_string_alternate(),
            AnyIpCidr::V6(c) => c.to_string_alternate(),
        }
    }

    /// The text of the value for debugging: `Any`, or `V4` or `V6` and in
    /// brackets the text with the network length.
    pub fn to_debug_string(&self) -> (s: String)
        ensures
            self.network() is None ==> s@ == as_chars("Any".spec_bytes()),
            self.network() is Some ==> s@ == as_chars(
                tagged_text(self.network()->Some_0._family(), self.network()->Some_0._prefix()),
            ),
    {
        match self {
            AnyIpCidr::Any => {
                let mut out: Vec<u8> = Vec::new();
                push_text(&mut out, "Any");
                proof {
                    lemma_literals_ascii();
                    assert(out@ =~= "Any".spec_bytes());
                }
                ascii_to_string(&out)
            },
            AnyIpCidr::V4(c) => IpCidr::V4(*c).to_debug_string(),
            AnyIpCidr::V6(c) => IpCidr::V6(*c).to_debug_string(),
        }
    }
}

impl Ipv4Inet {
    /// The text of the host: the address alone where its network is one
    /// address, else the address, a `/` and the network length.
    pub fn to_string(&self) -> (s: String)
        ensures
            s@ == as_chars(prefix_text(Family::Ipv4, self@, false)),
    {
        prefix_to_string(IpAddr::V4(self.address()), self.network_length(), false)
    }

    /// The text of the host with the network length in any case.
    pub fn to_string_alternate(&self) -> (s: String)
        ensures
            s@ == as_chars(prefix_text(Family::Ipv4, self@, true)),
    {
        prefix_to_string(IpAddr::V4(self.address()), self.network_length(), true)
    }

    /// The text of the host for debugging: with the network length in any
    /// case.
    pub fn to_debug_string(&self) -> (s: String)
        ensures
            s@ == as_chars(prefix_text(Family::Ipv4, self@, true)),
    {
        prefix_to_string(IpAddr::V4(self.address()), self.network_length(), true)
    }
}

impl Ipv6Inet {
    /// The text of the host: the address alone where its network is one
    /// address, else the address, a `/` and the network length.
    pub fn to_string(&self) -> (s: String)
        ensures
            s@ == as_chars(prefix_text(Family::Ipv6, self@, false)),
    {
        prefix_to_string(IpAddr::V6(self.address()), self.network_length(), false)
    }

    /// The text of the host with the network length in any case.
    pub fn to_string_alternate(&self) -> (s: String)
        ensures
            s@ == as_chars(prefix_text(Family::Ipv6, self@, true)),
    {
        prefix_to_string(IpAddr::V6(self.address()), self.network_length(), true)
    }

    /// The text of the host for debugging: with the network length in any
    /// case.
    pub fn to_debug_string(&self) -> (s: String)
        ensures
            s@ == as_chars(prefix_text(Family::Ipv6, self@, true)),
    {
        prefix_to_string(IpAddr::V6(self.address()), self.network_length(), true)
    }
}

impl IpInet {
    /// The text of the host: the address alone where its network is one
    /// address, else the address, a `/` and the network length.
    pub fn to_string(&self) -> (s: String)
        ensures
            s@ == as_chars(prefix_text(self._family(), self._prefix(), false)),
    {
        prefix_to_string(self.address(), self.network_length(), false)
    }

    /// The text of the host with the network length in any case.
    pub fn to_string_alternate(&self) -> (s: String)
        ensures
            s@ == as_chars(prefix_text(self._family(), self._prefix(), true)),
    {
        prefix_to_string(self.address(), self.network_length(), true)
    }

    /// The text of the host for debugging: `V4` or `V6`, and in brackets
    /// the text with the network length.
    pub fn to_debug_string(&self) -> (s: String)
        ensures
            s@ == as_chars(tagged_text(self._family(), self._prefix())),
    {
        tagged_to_string(self.address(), self.network_length())
    }
}

/// The text of a pair with the given addresses and length.
fn pair_to_string(first: IpInet, second: IpInet) -> (s: String)
    requires
        first._family() == second._family(),
    ensures
        s@ == as_chars(pair_text(first._family(), first._prefix(), second._prefix())),
{
    let mut out: Vec<u8> = Vec::new();
    push_text(&mut out, "(");
    push_prefix(&mut out, first.address(), first.network_length(), false);
    push_text(&mut out, ", ");
    push_prefix(&mut out, second.address(), second.network_length(), false);
    push_text(&mut out, ")");
    proof {
        lemma_pair_text_ascii(first._family(), first._prefix(), second._prefix());
        assert(out@ =~= pair_text(first._family(), first._prefix(), second._prefix()));
    }
    ascii_to_string(&out)
}

/// The text of a pair for debugging, with `V4` or `V6` and brackets
/// around it where `tagged` is set.
fn pair_to_debug_string(first: IpInet, second: IpInet, tagged: bool) -> (s: String)
    requires
        first._family() == second._family(),
    ensures
        tagged ==> s@ == as_chars(
            tagged_pair_debug_text(first._family(), first._prefix(), second._prefix()),
        ),
        !tagged ==> s@ == as_chars(
            pair_debug_text(first._family(), first._prefix(), second._prefix()),
        ),
{
    let mut out: Vec<u8> = Vec::new();
    if tagged {
        match first {
            IpInet::V4(_) => push_text(&mut out, "V4("),
            IpInet::V6(_) => push_text(&mut out, "V6("),
        }
    }
    let ghost head = out@;
    match first {
        IpInet::V4(_) => push_text(&mut out, "Ipv4InetPair { first: "),
        IpInet::V6(_) => push_text(&mut out, "Ipv6InetPair { first: "),
    }
    push_prefix(&mut out, first.address(), first.network_length(), true);
    push_text(&mut out, ", second: ");
    push_prefix(&mut out, second.address(), second.network_length(), true);
    push_text(&mut out, " }");
    proof {
        assert(out@ =~= head + pair_debug_text(
            first._family(),
            first._prefix(),
            second._prefix(),
        ));
    }
    if tagged {
        push_text(&mut out, ")");
    }
    proof {
        lemma_pair_debug_text_ascii(first._family(), first._prefix(), second._prefix());
        if tagged {
            assert(out@ =~= tagged_pair_debug_text(
                first._family(),
                first._prefix(),
                second._prefix(),
            ));
        } else {
            assert(out@ =~= pair_debug_text(first._family(), first._prefix(), second._prefix()));
        }
    }
    ascii_to_string(&out)
}

impl Ipv4InetPair {
    /// The text of the pair: in brackets, the two hosts with `, ` between
    /// them.
    pub fn to_string(&self) -> (s: String)
        ensures
            s@ == as_chars(
                pair_text(
                    Family::Ipv4,
                    Prefix { address: self@.first, length: self@.length },
                    Prefix { address: self@.second, length: self@.length },
                ),
            ),
    {
        pair_to_string(IpInet::V4(self.first()), IpInet::V4(self.second()))
    }

    /// The text of the pair for debugging.
    pub fn to_debug_string(&self) -> (s: String)
        ensures
            s@ == as_chars(
                pair_debug_text(
                    Family::Ipv4,
                    Prefix { address: self@.first, length: self@.length },
                    Prefix { address: self@.second, length: self@.length },
                ),
            ),
    {
        pair_to_debug_string(IpInet::V4(self.first()), IpInet::V4(self.second()), false)
    }
}

impl Ipv6InetPair {
    /// The text of the pair: in brackets, the two hosts with `, ` between
    /// them.
    pub fn to_string(&self) -> (s: String)
        ensures
            s@ == as_chars(
                pair_text(
                    Family::Ipv6,
                    Prefix { address: self@.first, length: self@.length },
                    Prefix { address: self@.second, length: self@.length },
                ),
            ),
    {
        pair_to_string(IpInet::V6(self.first()), IpInet::V6(self.second()))
    }

    /// The text of the pair for debugging.
    pub fn to_debug_string(&self) -> (s: String)
        ensures
            s@ == as_chars(
                pair_debug_text(
                    Family::Ipv6,
                    Prefix { address: self@.first, length: self@.length },
                    Prefix { address: self@.second, length: self@.length },
                ),
            ),
    {
        pair_to_debug_string(IpInet::V6(self.first()), IpInet::V6(self.second()), false)
    }
}

impl IpInetPair {
    /// The text of the pair: in brackets, the two hosts with `, ` between
    /// them.
    pub fn to_string(&self) -> (s: String)
        ensures
            s@ == as_chars(
                pair_text(
                    self._family(),
                    Prefix { address: self._span().first, length: self._span().length },
                    Prefix { address: self._span().second, length: self._span().length },
                ),
            ),
    {
        pair_to_string(self.first(), self.second())
    }

    /// The text of the pair for debugging.
    pub fn to_debug_string(&self) -> (s: String)
        ensures
            s@ == as_chars(
                tagged_pair_debug_text(
                    self._family(),
                    Prefix { address: self._span().first, length: self._span().length },
                    Prefix { address: self._span().second, length: self._span().length },
                ),
            ),
    {
        pair_to_debug_string(self.first(), self.second(), true)
    }
}

/// Writes the text of the error for a network length that is too long at
/// the end of `out`.
fn push_too_long(out: &mut Vec<u8>, e: &NetworkLengthTooLongError)
    ensures
        final(out)@ == old(out)@ + too_long_text(*e),
{
    push_text(out, "Network length ");
    push_decimal(out, e.0 as u128);
    push_text(out, " is too long for ");
    match e.1 {
        Family::Ipv4 => push_text(out, "Ipv4"),
        Family::Ipv6 => push_text(out, "Ipv6"),
    }
    push_text(out, " (maximum: ");
    push_decimal(out, e.1.len() as u128);
    push_text(out, ")");
    proof {
        assert(out@ =~= old(out)@ + too_long_text(*e));
    }
}

impl NetworkLengthTooLongError {
    /// The text of the error.
    pub fn to_string(&self) -> (s: String)
        ensures
            s@ == as_chars(too_long_text(*self)),
    {
        let mut out: Vec<u8> = Vec::new();
        push_too_long(&mut out, self);
        proof {
            lemma_error_texts_ascii(*self);
            assert(out@ =~= too_long_text(*self));
        }
        ascii_to_string(&out)
    }
}

impl AddrParseError {
    /// The text of the error.
    pub fn description(&self) -> (s: &'static str)
        ensures
            s.spec_bytes() == addr_error_text(*self),
    {
        match self {
            AddrParseError::Ip => "invalid IP address syntax",
            AddrParseError::Ipv4 => "invalid IPv4 address syntax",
            AddrParseError::Ipv6 => "invalid IPv6 address syntax",
        }
    }
}

impl ParseIntError {
    /// The text of the error.
    pub fn description(&self) -> (s: &'static str)
        ensures
            s.spec_bytes() == int_error_text(*self),
    {
        match self {
            ParseIntError::Empty => "cannot parse integer from empty string",
            ParseIntError::InvalidDigit => "invalid digit found in string",
            ParseIntError::PosOverflow => "number too large to fit in target type",
        }
    }
}

impl NetworkParseError {
    /// The text of the error.
    pub fn to_string(&self) -> (s: String)
        ensures
            s@ == as_chars(parse_error_text(*self)),
    {
        let mut out: Vec<u8> = Vec::new();
        match self {
            NetworkParseError::InvalidHostPart => {
                push_text(&mut out, "host part of address was not zero");
            },
            NetworkParseError::AddrParseError(e) => {
                push_text(&mut out, "couldn't parse address in network: ");
                push_text(&mut out, e.description());
            },
            NetworkParseError::NetworkLengthParseError(e) => {
                push_text(&mut out, "couldn't parse length in network: ");
                push_text(&mut out, e.description());
            },
            NetworkParseError::NetworkLengthTooLongError(e) => {
                push_text(&mut out, "invalid length for network: ");
                push_too_long(&mut out, e);
                proof {
                    lemma_error_texts_ascii(*e);
                }
            },
        }
        proof {
            lemma_literals_ascii();
            lemma_error_texts_ascii(NetworkLengthTooLongError(0, Family::Ipv4));
            assert(out@ =~= parse_error_text(*self));
        }
        ascii_to_string(&out)
    }
}

impl InetTupleError {
    /// The text of the error.
    pub fn to_string(&self) -> (s: String)
        ensures
            s@ == as_chars(tuple_error_text(*self)),
    {
        let mut out: Vec<u8> = Vec::new();
        match self {
            InetTupleError::NotInSharedNetwork => {
                push_text(&mut out, "addresses not in shared network");
            },
            InetTupleError::NetworkLengthTooLongError(e) => {
                push_text(&mut out, "invalid length for network: ");
                push_too_long(&mut out, e);
                proof {
                    lemma_error_texts_ascii(*e);
                }
            },
        }
        proof {
            lemma_literals_ascii();
            assert(out@ =~= tuple_error_text(*self));
        }
        ascii_to_string(&out)
    }
}

impl NumberOfAddresses {
    /// The text of the count: the number in decimal.
    pub fn to_string(&self) -> (s: String)
        ensures
            s@ == as_chars(count_text(*self)),
    {
        let mut out: Vec<u8> = Vec::new();
        match self {
            NumberOfAddresses::Count(c) => {
                push_decimal(&mut out, *c);
            },
            NumberOfAddresses::MaxIpv6Addresses => {
                // one more than the largest number of 128 bits
                push_decimal(&mut out, u128::MAX / 10);
                out.push(0x36);
                proof {
                    assert(decimal_text((u128::MAX as nat + 1) / 10) == decimal_text(
                        (u128::MAX / 10) as nat,
                    ));
                    assert((u128::MAX as nat + 1) % 10 == 6);
                }
            },
        }
        proof {
            lemma_number_text_ascii(self@);
            assert(out@ =~= count_text(*self));
        }
        ascii_to_string(&out)
    }
}

} // verus!
