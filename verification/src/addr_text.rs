//! The strict textual forms of addresses.
//!
//! An IPv4 address is written as four decimal numbers from 0 to 255 with
//! dots between them, none with a needless leading zero.  An IPv6 address
//! is written as eight groups of one to four hexadecimal digits with
//! colons between them; one run of groups that are zero may be left out
//! and leaves `::`, and the last two groups may be written as an IPv4
//! address.

use vstd::prelude::*;
use vstd::string::StringSliceAdditionalSpecFns;
use crate::errors::AddrParseError;
use crate::family::Family;
use crate::internal_traits::PrivUnspecAddress;
use crate::address::{octets_value, segments_value, IpAddr, Ipv4Addr, Ipv6Addr};
use crate::text::{find_byte, index_of, lemma_index_of, parse_number_in, read_digits};

verus! {

/// The byte `.`.
pub const DOT: u8 = 0x2e;

/// The byte `:`.
pub const COLON: u8 = 0x3a;

/// The number from 0 to 255 that a field of an IPv4 address spells: one to
/// three decimal digits, with a leading zero only where the field is `0`.
pub open spec fn octet_value(s: Seq<u8>) -> Option<u8> {
    if 1 <= s.len() <= 3 && (s.len() == 1 || s[0] != 0x30) && read_digits(s, 10, 256, 0) is Ok {
        Some(read_digits(s, 10, 256, 0)->Ok_0 as u8)
    } else {
        None
    }
}

/// The number below `2^16` that a group of an IPv6 address spells: one to
/// four hexadecimal digits.
pub open spec fn group_value(s: Seq<u8>) -> Option<u16> {
    if 1 <= s.len() <= 4 && read_digits(s, 16, 0x1_0000, 0) is Ok {
        Some(read_digits(s, 16, 0x1_0000, 0)->Ok_0 as u16)
    } else {
        None
    }
}

/// The four octets that a text spells as an IPv4 address, if it is one.
pub open spec fn ipv4_octets(s: Seq<u8>) -> Option<(u8, u8, u8, u8)> {
    let d0 = index_of(s, DOT);
    let r1 = s.skip(d0 + 1);
    let d1 = index_of(r1, DOT);
    let r2 = r1.skip(d1 + 1);
    let d2 = index_of(r2, DOT);
    let r3 = r2.skip(d2 + 1);
    if d0 < s.len() && d1 < r1.len() && d2 < r2.len() && octet_value(s.take(d0)) is Some
        && octet_value(r1.take(d1)) is Some && octet_value(r2.take(d2)) is Some && octet_value(
        r3,
    ) is Some {
        Some(
            (
                octet_value(s.take(d0))->Some_0,
                octet_value(r1.take(d1))->Some_0,
                octet_value(r2.take(d2))->Some_0,
                octet_value(r3)->Some_0,
            ),
        )
    } else {
        None
    }
}

/// The IPv4 address that a text spells, as a number, if it spells one.
pub open spec fn ipv4_value(s: Seq<u8>) -> Option<nat> {
    match ipv4_octets(s) {
        Some((a, b, c, d)) => Some(octets_value(a, b, c, d)),
        None => None,
    }
}

/// The place of the first `::` in `s`, or the length of `s` where there
/// is none.
pub open spec fn double_colon(s: Seq<u8>) -> int
    decreases s.len(),
{
    if s.len() < 2 {
        s.len() as int
    } else if s[0] == COLON && s[1] == COLON {
        0
    } else {
        1 + double_colon(s.skip(1))
    }
}

/// The groups that a text spells which holds no `::`: its fields between
/// colons are groups, and where `with_v4` is set its last field may be an
/// IPv4 address instead, which gives two groups.
pub open spec fn groups(s: Seq<u8>, with_v4: bool) -> Option<Seq<u16>>
    decreases s.len(),
{
    let c = index_of(s, COLON);
    if 0 <= c < s.len() {
        match (group_value(s.take(c)), groups(s.skip(c + 1), with_v4)) {
            (Some(g), Some(rest)) => Some(seq![g] + rest),
            _ => None,
        }
    } else if group_value(s) is Some {
        Some(seq![group_value(s)->Some_0])
    } else if with_v4 && ipv4_octets(s) is Some {
        let (a, b, c, d) = ipv4_octets(s)->Some_0;
        Some(seq![(a * 256 + b) as u16, (c * 256 + d) as u16])
    } else {
        None
    }
}

/// The groups that a text spells which may be empty.
pub open spec fn groups_or_none(s: Seq<u8>, with_v4: bool) -> Option<Seq<u16>> {
    if s.len() == 0 {
        Some(Seq::empty())
    } else {
        groups(s, with_v4)
    }
}

/// The eight groups that a text spells as an IPv6 address, if it is one.
pub open spec fn ipv6_groups(s: Seq<u8>) -> Option<Seq<u16>> {
    let k = double_colon(s);
    if k == s.len() {
        match groups(s, true) {
            Some(g) => if g.len() == 8 {
                Some(g)
            } else {
                None
            },
            None => None,
        }
    } else {
        match (groups_or_none(s.take(k), false), groups_or_none(s.skip(k + 2), true)) {
            (Some(head), Some(tail)) => if head.len() + tail.len() <= 7 {
                Some(head + Seq::new((8 - head.len() - tail.len()) as nat, |i: int| 0u16) + tail)
            } else {
                None
            },
            _ => None,
        }
    }
}

/// The IPv6 address that a text spells, as a number, if it spells one.
pub open spec fn ipv6_value(s: Seq<u8>) -> Option<nat> {
    match ipv6_groups(s) {
        Some(g) => Some(segments_value(g[0], g[1], g[2], g[3], g[4], g[5], g[6], g[7])),
        None => None,
    }
}

/// The octet that the bytes from `from` to `to` spell.
fn parse_octet(bytes: &[u8], from: usize, to: usize) -> (r: Option<u8>)
    requires
        from <= to <= bytes@.len(),
    ensures
        r == octet_value(bytes@.subrange(from as int, to as int)),
{
    if to - from < 1 || to - from > 3 {
        return None;
    }
    if to - from > 1 && bytes[from] == 0x30 {
        return None;
    }
    proof {
        // no sign is read: a field that begins with one is no number
        let s = bytes@.subrange(from as int, to as int);
        assert(s[0] == bytes@[from as int]);
        if s[0] == 0x2b || s[0] == 0x2d {
            assert(crate::text::digit_value(s[0], 10) is None);
        }
    }
    if bytes[from] == 0x2b || bytes[from] == 0x2d {
        return None;
    }
    match parse_number_in(bytes, from, to, 10, 256) {
        Ok(n) => Some(n as u8),
        Err(_) => None,
    }
}

/// The group that the bytes from `from` to `to` spell.
fn parse_group(bytes: &[u8], from: usize, to: usize) -> (r: Option<u16>)
    requires
        from <= to <= bytes@.len(),
    ensures
        r == group_value(bytes@.subrange(from as int, to as int)),
{
    if to - from < 1 || to - from > 4 {
        return None;
    }
    proof {
        let s = bytes@.subrange(from as int, to as int);
        assert(s[0] == bytes@[from as int]);
        if s[0] == 0x2b || s[0] == 0x2d {
            assert(crate::text::digit_value(s[0], 16) is None);
        }
    }
    if bytes[from] == 0x2b || bytes[from] == 0x2d {
        return None;
    }
    match parse_number_in(bytes, from, to, 16, 0x1_0000) {
        Ok(n) => Some(n as u16),
        Err(_) => None,
    }
}

/// The four octets that the bytes from `from` to `to` spell as an IPv4
/// address.
fn parse_ipv4_octets(bytes: &[u8], from: usize, to: usize) -> (r: Option<(u8, u8, u8, u8)>)
    requires
        from <= to <= bytes@.len(),
    ensures
        r == ipv4_octets(bytes@.subrange(from as int, to as int)),
{
    let ghost s = bytes@.subrange(from as int, to as int);
    let d0 = find_byte(bytes, from, to, DOT);
    if d0 >= to {
        return None;
    }
    let ghost r1 = s.skip(d0 - from + 1);
    proof {
        assert(s.take(d0 - from) =~= bytes@.subrange(from as int, d0 as int));
        assert(r1 =~= bytes@.subrange(d0 + 1, to as int));
    }
    let d1 = find_byte(bytes, d0 + 1, to, DOT);
    if d1 >= to {
        return None;
    }
    let ghost r2 = r1.skip(d1 - d0);
    proof {
        assert(r1.take(d1 - d0 - 1) =~= bytes@.subrange(d0 + 1, d1 as int));
        assert(r2 =~= bytes@.subrange(d1 + 1, to as int));
    }
    let d2 = find_byte(bytes, d1 + 1, to, DOT);
    if d2 >= to {
        return None;
    }
    proof {
        assert(r2.take(d2 - d1 - 1) =~= bytes@.subrange(d1 + 1, d2 as int));
        assert(r2.skip(d2 - d1) =~= bytes@.subrange(d2 + 1, to as int));
    }
    let a = match parse_octet(bytes, from, d0) {
        Some(a) => a,
        None => {
            return None;
        },
    };
    let b = match parse_octet(bytes, d0 + 1, d1) {
        Some(b) => b,
        None => {
            return None;
        },
    };
    let c = match parse_octet(bytes, d1 + 1, d2) {
        Some(c) => c,
        None => {
            return None;
        },
    };
    let d = match parse_octet(bytes, d2 + 1, to) {
        Some(d) => d,
        None => {
            return None;
        },
    };
    Some((a, b, c, d))
}

/// The IPv4 address that a text spells.
pub fn parse_ipv4(bytes: &[u8]) -> (r: Option<Ipv4Addr>)
    ensures
        r is Some <==> ipv4_value(bytes@) is Some,
        r is Some ==> r->Some_0@ == ipv4_value(bytes@)->Some_0,
{
    proof {
        assert(bytes@.subrange(0, bytes@.len() as int) =~= bytes@);
    }
    match parse_ipv4_octets(bytes, 0, bytes.len()) {
        Some((a, b, c, d)) => Some(Ipv4Addr::new(a, b, c, d)),
        None => None,
    }
}

/// The place of the first `::` in `bytes`, or the length of `bytes` where
/// there is none.
fn find_double_colon(bytes: &[u8]) -> (at: usize)
    ensures
        at == double_colon(bytes@),
        at <= bytes@.len(),
        at < bytes@.len() ==> at + 2 <= bytes@.len(),
{
    let n = bytes.len();
    if n < 2 {
        return n;
    }
    proof {
        assert(bytes@.skip(0) =~= bytes@);
    }
    let mut i: usize = 0;
    while i < n - 1 && !(bytes[i] == COLON && bytes[i + 1] == COLON)
        invariant
            2 <= n == bytes@.len(),
            i <= n - 1,
            double_colon(bytes@) == i + double_colon(bytes@.skip(i as int)),
        decreases bytes@.len() - i,
    {
        proof {
            let rest = bytes@.skip(i as int);
            assert(rest[0] == bytes@[i as int]);
            assert(rest[1] == bytes@[i + 1]);
            assert(rest.skip(1) =~= bytes@.skip(i + 1));
        }
        i += 1;
    }
    proof {
        let rest = bytes@.skip(i as int);
        if i < n - 1 {
            assert(rest[0] == bytes@[i as int]);
            assert(rest[1] == bytes@[i + 1]);
        }
    }
    if i < n - 1 {
        i
    } else {
        n
    }
}

/// The groups that the bytes from `from` to `to` spell.
fn parse_groups(bytes: &[u8], from: usize, to: usize, with_v4: bool) -> (r: Option<Vec<u16>>)
    requires
        from <= to <= bytes@.len(),
    ensures
        r is Some <==> groups_or_none(bytes@.subrange(from as int, to as int), with_v4) is Some,
        r is Some ==> r->Some_0@ == groups_or_none(
            bytes@.subrange(from as int, to as int),
            with_v4,
        )->Some_0,
{
    let mut found: Vec<u16> = Vec::new();
    if from == to {
        return Some(found);
    }
    let ghost s = bytes@.subrange(from as int, to as int);
    let mut start = from;
    loop
        invariant
            from <= start <= to <= bytes@.len(),
            start == to ==> start > from && bytes@[start - 1] == COLON,
            s == bytes@.subrange(from as int, to as int),
            groups(s, with_v4) == match groups(bytes@.subrange(start as int, to as int), with_v4) {
                Some(rest) => Some(found@ + rest),
                None => None::<Seq<u16>>,
            },
        decreases to - start,
    {
        let ghost rest = bytes@.subrange(start as int, to as int);
        let c = find_byte(bytes, start, to, COLON);
        proof {
            assert(rest.take(c - start) =~= bytes@.subrange(start as int, c as int));
            lemma_index_of(rest, COLON);
        }
        if c < to {
            proof {
                assert(rest.skip(c - start + 1) =~= bytes@.subrange(c + 1, to as int));
            }
            match parse_group(bytes, start, c) {
                Some(g) => {
                    proof {
                        let more = groups(bytes@.subrange(c + 1, to as int), with_v4);
                        if more is Some {
                            assert(found@.push(g) + more->Some_0 =~= found@ + (seq![g]
                                + more->Some_0));
                        }
                    }
                    found.push(g);
                },
                None => {
                    return None;
                },
            }
            start = c + 1;
        } else {
            match parse_group(bytes, start, to) {
                Some(g) => {
                    proof {
                        assert(found@.push(g) =~= found@ + seq![g]);
                    }
                    found.push(g);
                    return Some(found);
                },
                None => {},
            }
            if !with_v4 {
                return None;
            }
            match parse_ipv4_octets(bytes, start, to) {
                Some((a, b, c, d)) => {
                    let hi: u16 = (a as u16) * 256 + (b as u16);
                    let lo: u16 = (c as u16) * 256 + (d as u16);
                    proof {
                        assert(found@.push(hi).push(lo) =~= found@ + seq![hi, lo]);
                    }
                    found.push(hi);
                    found.push(lo);
                    return Some(found);
                },
                None => {
                    return None;
                },
            }
        }
    }
}

/// The IPv6 address that a text spells.
pub fn parse_ipv6(bytes: &[u8]) -> (r: Option<Ipv6Addr>)
    ensures
        r is Some <==> ipv6_value(bytes@) is Some,
        r is Some ==> r->Some_0@ == ipv6_value(bytes@)->Some_0,
{
    let k = find_double_colon(bytes);
    let mut segments: [u16; 8] = [0u16;8];
    if k == bytes.len() {
        proof {
            assert(bytes@.subrange(0, bytes@.len() as int) =~= bytes@);
        }
        if bytes.len() == 0 {
            proof {
                lemma_index_of(bytes@, COLON);
            }
            return None;
        }
        let found = match parse_groups(bytes, 0, bytes.len(), true) {
            Some(found) => found,
            None => {
                return None;
            },
        };
        if found.len() != 8 {
            return None;
        }
        Some(
            Ipv6Addr::new(
                found[0],
                found[1],
                found[2],
                found[3],
                found[4],
                found[5],
                found[6],
                found[7],
            ),
        )
    } else {
        proof {
            assert(bytes@.take(k as int) =~= bytes@.subrange(0, k as int));
            assert(bytes@.skip(k + 2) =~= bytes@.subrange(k + 2, bytes@.len() as int));
        }
        let head = match parse_groups(bytes, 0, k, false) {
            Some(head) => head,
            None => {
                return None;
            },
        };
        let tail = match parse_groups(bytes, k + 2, bytes.len(), true) {
            Some(tail) => tail,
            None => {
                return None;
            },
        };
        if head.len() > 7 || tail.len() > 7 - head.len() {
            return None;
        }
        let ghost all = head@ + Seq::new((8 - head@.len() - tail@.len()) as nat, |i: int| 0u16)
            + tail@;
        let mut i: usize = 0;
        while i < head.len()
            invariant
                i <= head@.len() <= 7,
                tail@.len() <= 7 - head@.len(),
                all == head@ + Seq::new((8 - head@.len() - tail@.len()) as nat, |i: int| 0u16)
                    + tail@,
                forall|j: int| 0 <= j < i ==> segments@[j] == all[j],
                forall|j: int| head@.len() <= j < 8 ==> segments@[j] == 0,
            decreases head@.len() - i,
        {
            segments[i] = head[i];
            i += 1;
        }
        let skip = 8 - tail.len();
        let mut i: usize = 0;
        while i < tail.len()
            invariant
                i <= tail@.len(),
                head@.len() <= 7,
                tail@.len() <= 7 - head@.len(),
                skip == 8 - tail@.len(),
                all == head@ + Seq::new((8 - head@.len() - tail@.len()) as nat, |i: int| 0u16)
                    + tail@,
                forall|j: int| 0 <= j < head@.len() ==> segments@[j] == all[j],
                forall|j: int| head@.len() <= j < skip ==> segments@[j] == 0,
                forall|j: int| skip <= j < skip + i ==> segments@[j] == all[j],
            decreases tail@.len() - i,
        {
            segments[skip + i] = tail[i];
            i += 1;
        }
        proof {
            assert forall|j: int| 0 <= j < 8 implies segments@[j] == all[j] by {}
        }
        Some(
            Ipv6Addr::new(
                segments[0],
                segments[1],
                segments[2],
                segments[3],
                segments[4],
                segments[5],
                segments[6],
                segments[7],
            ),
        )
    }
}

/// The IP address that a text spells, if it spells one: its family and the
/// address as a number.
pub open spec fn ip_value(s: Seq<u8>) -> Option<(Family, nat)> {
    match ipv4_value(s) {
        Some(v) => Some((Family::Ipv4, v)),
        None => match ipv6_value(s) {
            Some(v) => Some((Family::Ipv6, v)),
            None => None,
        },
    }
}

/// The IP address that a text spells: an IPv4 address or an IPv6 address.
pub fn parse_ip(bytes: &[u8]) -> (r: Option<IpAddr>)
    ensures
        r is Some <==> ip_value(bytes@) is Some,
        r is Some ==> ip_value(bytes@)->Some_0 == (r->Some_0._family(), r->Some_0._value()),
{
    match parse_ipv4(bytes) {
        Some(addr) => Some(IpAddr::V4(addr)),
        None => match parse_ipv6(bytes) {
            Some(addr) => Some(IpAddr::V6(addr)),
            None => None,
        },
    }
}

/// The IPv4 address that a text spells.
pub fn ipv4_from_str(s: &str) -> (r: Result<Ipv4Addr, AddrParseError>)
    ensures
        r is Ok <==> ipv4_value(s.spec_bytes()) is Some,
        r is Ok ==> r->Ok_0@ == ipv4_value(s.spec_bytes())->Some_0,
        r is Err ==> r == Err::<Ipv4Addr, _>(AddrParseError::Ipv4),
{
    match parse_ipv4(s.as_bytes()) {
        Some(addr) => Ok(addr),
        None => Err(AddrParseError::Ipv4),
    }
}

/// The IPv6 address that a text spells.
pub fn ipv6_from_str(s: &str) -> (r: Result<Ipv6Addr, AddrParseError>)
    ensures
        r is Ok <==> ipv6_value(s.spec_bytes()) is Some,
        r is Ok ==> r->Ok_0@ == ipv6_value(s.spec_bytes())->Some_0,
        r is Err ==> r == Err::<Ipv6Addr, _>(AddrParseError::Ipv6),
{
    match parse_ipv6(s.as_bytes()) {
        Some(addr) => Ok(addr),
        None => Err(AddrParseError::Ipv6),
    }
}

/// The IP address that a text spells.
pub fn ip_from_str(s: &str) -> (r: Result<IpAddr, AddrParseError>)
    ensures
        r is Ok <==> ip_value(s.spec_bytes()) is Some,
        r is Ok ==> ip_value(s.spec_bytes())->Some_0 == (r->Ok_0._family(), r->Ok_0._value()),
        r is Err ==> r == Err::<IpAddr, _>(AddrParseError::Ip),
{
    match parse_ip(s.as_bytes()) {
        Some(addr) => Ok(addr),
        None => Err(AddrParseError::Ip),
    }
}

impl core::str::FromStr for Ipv4Addr {
    type Err = AddrParseError;

    /// The IPv4 address that a text spells.
    fn from_str(s: &str) -> (r: Result<Self, AddrParseError>)
        ensures
            r is Ok <==> ipv4_value(s.spec_bytes()) is Some,
            r is Ok ==> r->Ok_0@ == ipv4_value(s.spec_bytes())->Some_0,
            r is Err ==> r == Err::<Ipv4Addr, _>(AddrParseError::Ipv4),
    {
        ipv4_from_str(s)
    }
}

impl core::str::FromStr for Ipv6Addr {
    type Err = AddrParseError;

    /// The IPv6 address that a text spells.
    fn from_str(s: &str) -> (r: Result<Self, AddrParseError>)
        ensures
            r is Ok <==> ipv6_value(s.spec_bytes()) is Some,
            r is Ok ==> r->Ok_0@ == ipv6_value(s.spec_bytes())->Some_0,
            r is Err ==> r == Err::<Ipv6Addr, _>(AddrParseError::Ipv6),
    {
        ipv6_from_str(s)
    }
}

impl core::str::FromStr for IpAddr {
    type Err = AddrParseError;

    /// The IP address that a text spells.
    fn from_str(s: &str) -> (r: Result<Self, AddrParseError>)
        ensures
            r is Ok <==> ip_value(s.spec_bytes()) is Some,
            r is Ok ==> ip_value(s.spec_bytes())->Some_0 == (r->Ok_0._family(), r->Ok_0._value()),
            r is Err ==> r == Err::<IpAddr, _>(AddrParseError::Ip),
    {
        ip_from_str(s)
    }
}

} // verus!
