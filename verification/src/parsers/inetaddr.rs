//! Loose forms of IPv4 addresses, as the function `inet_addr` of POSIX
//! takes them.

use vstd::prelude::*;
use vstd::string::StringSliceAdditionalSpecFns;
use super::combinators::address_is;
use crate::addr_text::{ip_from_str, ip_value, ipv4_from_str, ipv4_value, DOT};
use crate::address::{IpAddr, Ipv4Addr};
use crate::errors::AddrParseError;
use crate::family::Family;
use crate::internal_traits::PrivUnspecAddress;
use crate::text::{find_byte, index_of, lemma_index_of, parse_number, parse_number_in};

verus! {

/// Whether the text begins with `0x` or `0X`.
pub open spec fn has_hex_mark(s: Seq<u8>) -> bool {
    s.len() >= 2 && s[0] == 0x30 && (s[1] == 0x78 || s[1] == 0x58)
}

/// The number below `2^32` that a field of a loose address spells: in
/// hexadecimal after `0x` or `0X`, where no sign may follow; in octal
/// after another leading `0`; else in decimal.
pub open spec fn loose_number(s: Seq<u8>) -> Option<u32> {
    if has_hex_mark(s) {
        if s.len() > 2 && s[2] == 0x2b {
            None
        } else {
            match parse_number(s.skip(2), 16, 0x1_0000_0000) {
                Ok(v) => Some(v as u32),
                Err(_) => None,
            }
        }
    } else if s.len() >= 1 && s[0] == 0x30 {
        match parse_number(s, 8, 0x1_0000_0000) {
            Ok(v) => Some(v as u32),
            Err(_) => None,
        }
    } else {
        match parse_number(s, 10, 0x1_0000_0000) {
            Ok(v) => Some(v as u32),
            Err(_) => None,
        }
    }
}

/// The numbers that a loose text spells: its fields between dots.
pub open spec fn loose_fields(s: Seq<u8>) -> Option<Seq<u32>>
    decreases s.len(),
{
    let d = index_of(s, DOT);
    if 0 <= d < s.len() {
        match (loose_number(s.take(d)), loose_fields(s.skip(d + 1))) {
            (Some(v), Some(rest)) => Some(seq![v] + rest),
            _ => None,
        }
    } else {
        match loose_number(s) {
            Some(v) => Some(seq![v]),
            None => None,
        }
    }
}

/// The address that one to four numbers make: all but the last are octets
/// of their own, the first being the most significant, and the last
/// fills all the octets that are left.
pub open spec fn loose_value(f: Seq<u32>) -> Option<nat> {
    if f.len() == 1 {
        Some(f[0] as nat)
    } else if f.len() == 2 && f[0] < 0x100 && f[1] < 0x100_0000 {
        Some(f[0] as nat * 0x100_0000 + f[1] as nat)
    } else if f.len() == 3 && f[0] < 0x100 && f[1] < 0x100 && f[2] < 0x1_0000 {
        Some(f[0] as nat * 0x100_0000 + f[1] as nat * 0x1_0000 + f[2] as nat)
    } else if f.len() == 4 && f[0] < 0x100 && f[1] < 0x100 && f[2] < 0x100 && f[3] < 0x100 {
        Some(
            f[0] as nat * 0x100_0000 + f[1] as nat * 0x1_0000 + f[2] as nat * 0x100 + f[3] as nat,
        )
    } else {
        None
    }
}

/// The IPv4 address that a loose text spells, as a number.
pub open spec fn inet_addr_value(s: Seq<u8>) -> Option<nat> {
    match loose_fields(s) {
        Some(f) => loose_value(f),
        None => None,
    }
}

/// Numbers that a loose text spells are at least one.
proof fn lemma_loose_fields_len(s: Seq<u8>)
    ensures
        loose_fields(s) is Some ==> loose_fields(s)->Some_0.len() >= 1,
    decreases s.len(),
{
    let d = index_of(s, DOT);
    if 0 <= d < s.len() {
        lemma_loose_fields_len(s.skip(d + 1));
    }
}

/// The number that the bytes from `from` to `to` spell as a field of a
/// loose address.
fn parse_loose_number(bytes: &[u8], from: usize, to: usize) -> (r: Option<u32>)
    requires
        from <= to <= bytes@.len(),
    ensures
        r == loose_number(bytes@.subrange(from as int, to as int)),
{
    let ghost s = bytes@.subrange(from as int, to as int);
    proof {
        if to - from >= 1 {
            assert(s[0] == bytes@[from as int]);
        }
        if to - from >= 2 {
            assert(s[1] == bytes@[from + 1]);
        }
        if to - from >= 3 {
            assert(s[2] == bytes@[from + 2]);
        }
    }
    let slot = if to - from >= 2 && bytes[from] == 0x30 && (bytes[from + 1] == 0x78 || bytes[from
        + 1] == 0x58) {
        if to - from > 2 && bytes[from + 2] == 0x2b {
            // we don't want to support "0x+..."
            return None;
        }
        proof {
            assert(s.skip(2) =~= bytes@.subrange(from + 2, to as int));
        }
        parse_number_in(bytes, from + 2, to, 16, 0x1_0000_0000)
    } else if to - from >= 1 && bytes[from] == 0x30 {
        parse_number_in(bytes, from, to, 8, 0x1_0000_0000)
    } else {
        parse_number_in(bytes, from, to, 10, 0x1_0000_0000)
    };
    match slot {
        Ok(v) => Some(v as u32),
        Err(_) => None,
    }
}

/// Parse "loose" IPv4 address similar to POSIX `inet_addr`
///
/// This also accepts inputs that are not 4 decimal represented octects separated by dots.
///
/// * Allows less than 4 numbers separated by dots; the last number is
///   interpreted as an 32-bit (no dot), 24-bit (1 dot), 16-bit (2 dots) number.
///   Other numbers still must be octets (i.e. 8 bit)
/// * Allows hexadecimal ("0x" or "0X" prefix) and octal ("0" prefix) numbers
///   in all places.
pub fn inet_addr(s: &str) -> (r: Option<Ipv4Addr>)
    ensures
        r is Some <==> inet_addr_value(s.spec_bytes()) is Some,
        r is Some ==> r->Some_0@ == inet_addr_value(s.spec_bytes())->Some_0,
{
    let bytes = s.as_bytes();
    let to = bytes.len();
    let mut slots: [u32; 4] = [0u32;4];
    let mut count: usize = 0;
    let mut start: usize = 0;
    let ghost text = bytes@;
    let ghost mut found: Seq<u32> = Seq::empty();
    proof {
        assert(bytes@.subrange(0, to as int) =~= bytes@);
    }
    loop
        invariant_except_break
            start <= to == bytes@.len(),
            text == bytes@,
            text == s.spec_bytes(),
            count <= 4,
            found.len() == count,
            forall|j: int| 0 <= j < count ==> slots@[j] == found[j],
            loose_fields(text) == match loose_fields(bytes@.subrange(start as int, to as int)) {
                Some(rest) => Some(found + rest),
                None => None::<Seq<u32>>,
            },
        ensures
            1 <= count <= 4,
            found.len() == count,
            forall|j: int| 0 <= j < count ==> slots@[j] == found[j],
            loose_fields(s.spec_bytes()) == Some(found),
        decreases to - start,
    {
        let ghost rest = bytes@.subrange(start as int, to as int);
        proof {
            lemma_loose_fields_len(rest);
        }
        if count >= 4 {
            // too many '.'
            return None;
        }
        let d = find_byte(bytes, start, to, DOT);
        proof {
            assert(rest.take(d - start) =~= bytes@.subrange(start as int, d as int));
            if d == to {
                assert(rest =~= bytes@.subrange(start as int, d as int));
            }
            lemma_index_of(rest, DOT);
        }
        let slot = match parse_loose_number(bytes, start, d) {
            Some(slot) => slot,
            None => {
                return None;
            },
        };
        slots[count] = slot;
        count += 1;
        if d < to {
            proof {
                assert(rest.skip(d - start + 1) =~= bytes@.subrange(d + 1, to as int));
                let more = loose_fields(bytes@.subrange(d + 1, to as int));
                if more is Some {
                    assert(found.push(slot) + more->Some_0 =~= found + (seq![slot]
                        + more->Some_0));
                }
                found = found.push(slot);
            }
            start = d + 1;
        } else {
            proof {
                assert(found.push(slot) =~= found + seq![slot]);
                found = found.push(slot);
            }
            break ;
        }
    }
    let num: u32 = if count == 1 {
        slots[0]
    } else if count == 2 {
        if slots[0] >= 0x100 || slots[1] >= 0x100_0000 {
            // leading parts must be octects, and the last part must fit
            return None;
        }
        slots[0] * 0x100_0000 + slots[1]
    } else if count == 3 {
        if slots[0] >= 0x100 || slots[1] >= 0x100 || slots[2] >= 0x1_0000 {
            return None;
        }
        slots[0] * 0x100_0000 + slots[1] * 0x1_0000 + slots[2]
    } else {
        if slots[0] >= 0x100 || slots[1] >= 0x100 || slots[2] >= 0x100 || slots[3] >= 0x100 {
            return None;
        }
        slots[0] * 0x100_0000 + slots[1] * 0x1_0000 + slots[2] * 0x100 + slots[3]
    };
    Some(Ipv4Addr::from_bits(num))
}

/// What a text is as an IPv4 address in the strict form or else in the
/// loose one.
pub open spec fn loose_ipv4(t: Seq<u8>) -> Result<(Family, nat), AddrParseError> {
    match ipv4_value(t) {
        Some(v) => Ok((Family::Ipv4, v)),
        None => match inet_addr_value(t) {
            Some(v) => Ok((Family::Ipv4, v)),
            None => Err(AddrParseError::Ipv4),
        },
    }
}

/// What a text is as an IP address in the strict form or else as an IPv4
/// address in the loose one.
pub open spec fn loose_ip(t: Seq<u8>) -> Result<(Family, nat), AddrParseError> {
    match ip_value(t) {
        Some(a) => Ok(a),
        None => match inet_addr_value(t) {
            Some(v) => Ok((Family::Ipv4, v)),
            None => Err(AddrParseError::Ip),
        },
    }
}

/// Parse IPv4 address; fall back to `inet_addr` if normal parser fails
pub fn parse_loose_ipv4(s: &str) -> (r: Result<Ipv4Addr, AddrParseError>)
    ensures
        address_is(r, loose_ipv4(s.spec_bytes())),
{
    match ipv4_from_str(s) {
        Ok(a) => Ok(a),
        Err(e) => {
            if let Some(a) = inet_addr(s) {
                Ok(a)
            } else {
                Err(e)
            }
        },
    }
}

/// Parse IP address; fall back to `inet_addr` if normal parser fails
pub fn parse_loose_ip(s: &str) -> (r: Result<IpAddr, AddrParseError>)
    ensures
        address_is(r, loose_ip(s.spec_bytes())),
{
    match ip_from_str(s) {
        Ok(a) => Ok(a),
        Err(e) => {
            if let Some(a) = inet_addr(s) {
                Ok(IpAddr::V4(a))
            } else {
                Err(e)
            }
        },
    }
}

} // verus!
