//! The compact form in which networks and hosts are written: one byte that
//! tells the family and the network length, and the bytes of the address.
//!
//! - `0x00...0x20`: IPv4 with network length `tag`, then 4 bytes
//! - `0x40...0xc0`: IPv6 with network length `tag - 0x40`, then 16 bytes
//! - `0xff`: `any`, then nothing

pub mod addr_len_map;
pub mod variant;
pub mod variant_any;

use vstd::prelude::*;
use crate::address::{be_value, IpAddr, Ipv4Addr, Ipv6Addr};
use crate::family::Family;
use crate::internal_traits::PrivUnspecAddress;

verus! {

/// Why a tag with bytes is not what was asked for.
#[derive(Clone, Copy, PartialEq, Eq, Structural, Debug)]
pub enum DeserializeError {
    /// the tag is none of those that are in use
    InvalidTag,
    /// the address has this many bytes, which is not what the tag says
    InvalidLength(usize),
    /// the value is `any`, where an address was asked for
    InvalidValueAny,
    /// the address is of the other family: this one
    InvalidType(Family),
}

/// What a tag says.
#[derive(Clone, Copy, PartialEq, Eq, Structural, Debug)]
pub enum Tag {
    /// no address follows
    Any,
    /// an address of this family follows, with this network length
    Address(Family, u8),
}

/// What the tag byte says, if it is one of those that are in use.
pub open spec fn tag_meaning(tag: u8) -> Option<Tag> {
    if tag == 0xff {
        Some(Tag::Any)
    } else if tag <= 0x20 {
        Some(Tag::Address(Family::Ipv4, tag))
    } else if 0x40 <= tag <= 0xc0 {
        Some(Tag::Address(Family::Ipv6, (tag - 0x40) as u8))
    } else {
        None
    }
}

/// The number of bytes of an address of the family.
pub open spec fn address_bytes(family: Family) -> nat {
    family.width() / 8
}

/// What the tag byte says: which family and network length, or that no
/// address follows.
pub fn read_tag(tag: u8) -> (r: Result<Tag, DeserializeError>)
    ensures
        tag_meaning(tag) is Some ==> r == Ok::<_, DeserializeError>(tag_meaning(tag)->Some_0),
        tag_meaning(tag) is None ==> r == Err::<Tag, _>(DeserializeError::InvalidTag),
{
    if tag == 0xff {
        Ok(Tag::Any)
    } else if tag <= 0x20 {
        Ok(Tag::Address(Family::Ipv4, tag))
    } else if 0x40 <= tag && tag <= 0xc0 {
        Ok(Tag::Address(Family::Ipv6, tag - 0x40))
    } else {
        Err(DeserializeError::InvalidTag)
    }
}

/// The compact form of an address with a network length, or of `any`: the
/// tag and the bytes of the address.
pub fn serialize_any(data: Option<(IpAddr, u8)>) -> (r: (u8, Vec<u8>))
    requires
        data is Some ==> data->Some_0.1 <= data->Some_0.0._family().width(),
    ensures
        data is None ==> r.0 == 0xff && r.1@.len() == 0,
        data is Some ==> {
            &&& tag_meaning(r.0) == Some(Tag::Address(data->Some_0.0._family(), data->Some_0.1))
            &&& r.1@.len() == address_bytes(data->Some_0.0._family())
            &&& be_value(r.1@) == data->Some_0.0._value()
        },
{
    // the tag is always one byte; what follows depends on it
    match data {
        // tag: 0xff
        None => (0xff, Vec::new()),
        // tag: 0x00...0x20
        Some((IpAddr::V4(addr), len)) => {
            let octets = addr.octets();
            let mut bytes: Vec<u8> = Vec::new();
            let mut i: usize = 0;
            while i < 4
                invariant
                    i <= 4,
                    bytes@ == octets@.take(i as int),
                decreases 4 - i,
            {
                bytes.push(octets[i]);
                proof {
                    assert(bytes@ =~= octets@.take(i + 1));
                }
                i += 1;
            }
            proof {
                assert(octets@.take(4) =~= octets@);
            }
            (len, bytes)
        },
        // tag: 0x40...0xc0
        Some((IpAddr::V6(addr), len)) => {
            let octets = addr.octets();
            let mut bytes: Vec<u8> = Vec::new();
            let mut i: usize = 0;
            while i < 16
                invariant
                    i <= 16,
                    bytes@ == octets@.take(i as int),
                decreases 16 - i,
            {
                bytes.push(octets[i]);
                proof {
                    assert(bytes@ =~= octets@.take(i + 1));
                }
                i += 1;
            }
            proof {
                assert(octets@.take(16) =~= octets@);
            }
            (len + 64, bytes)
        },
    }
}

/// The compact form of an address with a network length.
pub fn serialize(data: (IpAddr, u8)) -> (r: (u8, Vec<u8>))
    requires
        data.1 <= data.0._family().width(),
    ensures
        tag_meaning(r.0) == Some(Tag::Address(data.0._family(), data.1)),
        r.1@.len() == address_bytes(data.0._family()),
        be_value(r.1@) == data.0._value(),
{
    serialize_any(Some(data))
}

/// The compact form of an IPv4 address with a network length.
pub fn serialize_v4(data: (Ipv4Addr, u8)) -> (r: (u8, Vec<u8>))
    requires
        data.1 <= 32,
    ensures
        r.0 == data.1,
        r.1@.len() == 4,
        be_value(r.1@) == data.0@,
{
    serialize_any(Some((IpAddr::V4(data.0), data.1)))
}

/// The compact form of an IPv6 address with a network length.
pub fn serialize_v6(data: (Ipv6Addr, u8)) -> (r: (u8, Vec<u8>))
    requires
        data.1 <= 128,
    ensures
        r.0 == data.1 + 0x40,
        r.1@.len() == 16,
        be_value(r.1@) == data.0@,
{
    serialize_any(Some((IpAddr::V6(data.0), data.1)))
}

/// What a compact form stands for: an address with a network length, or
/// `any`.  The tag must be one of those that are in use, and the address
/// must have the number of bytes that the tag asks for.
pub fn deserialize_any(tag: u8, bytes: &[u8]) -> (r: Result<Option<(IpAddr, u8)>, DeserializeError>)
    ensures
        tag_meaning(tag) is None ==> r == Err::<Option<(IpAddr, u8)>, _>(
            DeserializeError::InvalidTag,
        ),
        tag_meaning(tag) == Some(Tag::Any) ==> {
            &&& bytes@.len() == 0 ==> r == Ok::<_, DeserializeError>(None::<(IpAddr, u8)>)
            &&& bytes@.len() != 0 ==> r == Err::<Option<(IpAddr, u8)>, _>(
                DeserializeError::InvalidLength(bytes.len()),
            )
        },
        tag_meaning(tag) matches Some(Tag::Address(family, len)) ==> {
            &&& bytes@.len() != address_bytes(family) ==> r == Err::<Option<(IpAddr, u8)>, _>(
                DeserializeError::InvalidLength(bytes.len()),
            )
            &&& bytes@.len() == address_bytes(family) ==> {
                &&& r is Ok
                &&& r->Ok_0 is Some
                &&& r->Ok_0->Some_0.0._family() == family
                &&& r->Ok_0->Some_0.0._value() == be_value(bytes@)
                &&& r->Ok_0->Some_0.1 == len
            }
        },
{
    match read_tag(tag) {
        Err(e) => Err(e),
        Ok(Tag::Any) => {
            if bytes.len() != 0 {
                return Err(DeserializeError::InvalidLength(bytes.len()));
            }
            Ok(None)
        },
        Ok(Tag::Address(Family::Ipv4, network_length)) => {
            if bytes.len() != 4 {
                return Err(DeserializeError::InvalidLength(bytes.len()));
            }
            let octets = [bytes[0], bytes[1], bytes[2], bytes[3]];
            proof {
                assert(octets@ =~= bytes@);
            }
            let addr = Ipv4Addr::from_octets(octets);
            Ok(Some((IpAddr::V4(addr), network_length)))
        },
        Ok(Tag::Address(Family::Ipv6, network_length)) => {
            if bytes.len() != 16 {
                return Err(DeserializeError::InvalidLength(bytes.len()));
            }
            let mut octets = [0u8;16];
            let mut i: usize = 0;
            while i < 16
                invariant
                    i <= 16,
                    bytes@.len() == 16,
                    octets@.take(i as int) == bytes@.take(i as int),
                decreases 16 - i,
            {
                octets[i] = bytes[i];
                proof {
                    assert(octets@.take(i + 1) =~= bytes@.take(i + 1)) by {
                        assert forall|j: int| 0 <= j < i implies octets@[j] == bytes@[j] by {
                            assert(octets@.take(i as int)[j] == bytes@.take(i as int)[j]);
                        }
                    }
                }
                i += 1;
            }
            proof {
                assert(octets@.take(16) =~= octets@);
                assert(bytes@.take(16) =~= bytes@);
            }
            let addr = Ipv6Addr::from_octets(octets);
            Ok(Some((IpAddr::V6(addr), network_length)))
        },
    }
}

/// What a compact form stands for, where it must be an address with a
/// network length.
pub fn deserialize(tag: u8, bytes: &[u8]) -> (r: Result<(IpAddr, u8), DeserializeError>)
    ensures
        tag_meaning(tag) is None ==> r == Err::<(IpAddr, u8), _>(DeserializeError::InvalidTag),
        tag_meaning(tag) == Some(Tag::Any) ==> {
            &&& bytes@.len() == 0 ==> r == Err::<(IpAddr, u8), _>(DeserializeError::InvalidValueAny)
            &&& bytes@.len() != 0 ==> r == Err::<(IpAddr, u8), _>(
                DeserializeError::InvalidLength(bytes.len()),
            )
        },
        tag_meaning(tag) matches Some(Tag::Address(family, len)) ==> {
            &&& bytes@.len() != address_bytes(family) ==> r == Err::<(IpAddr, u8), _>(
                DeserializeError::InvalidLength(bytes.len()),
            )
            &&& bytes@.len() == address_bytes(family) ==> {
                &&& r is Ok
                &&& r->Ok_0.0._family() == family
                &&& r->Ok_0.0._value() == be_value(bytes@)
                &&& r->Ok_0.1 == len
            }
        },
{
    match deserialize_any(tag, bytes) {
        Err(e) => Err(e),
        Ok(None) => Err(DeserializeError::InvalidValueAny),
        Ok(Some(data)) => Ok(data),
    }
}

/// What a compact form stands for, where it must be an IPv4 address with
/// a network length.
pub fn deserialize_v4(tag: u8, bytes: &[u8]) -> (r: Result<(Ipv4Addr, u8), DeserializeError>)
    ensures
        deserialized(tag, bytes@) matches Ok((family, address, len)) ==> {
            &&& family == Family::Ipv4 ==> r is Ok && r->Ok_0.0@ == address && r->Ok_0.1 == len
            &&& family == Family::Ipv6 ==> r == Err::<(Ipv4Addr, u8), _>(
                DeserializeError::InvalidType(Family::Ipv6),
            )
        },
        deserialized(tag, bytes@) matches Err(e) ==> r == Err::<(Ipv4Addr, u8), _>(e),
{
    match deserialize(tag, bytes) {
        Err(e) => Err(e),
        Ok((IpAddr::V4(addr), len)) => Ok((addr, len)),
        Ok((IpAddr::V6(_), _)) => Err(DeserializeError::InvalidType(Family::Ipv6)),
    }
}

/// What a compact form stands for, where it must be an IPv6 address with
/// a network length.
pub fn deserialize_v6(tag: u8, bytes: &[u8]) -> (r: Result<(Ipv6Addr, u8), DeserializeError>)
    ensures
        deserialized(tag, bytes@) matches Ok((family, address, len)) ==> {
            &&& family == Family::Ipv6 ==> r is Ok && r->Ok_0.0@ == address && r->Ok_0.1 == len
            &&& family == Family::Ipv4 ==> r == Err::<(Ipv6Addr, u8), _>(
                DeserializeError::InvalidType(Family::Ipv4),
            )
        },
        deserialized(tag, bytes@) matches Err(e) ==> r == Err::<(Ipv6Addr, u8), _>(e),
{
    match deserialize(tag, bytes) {
        Err(e) => Err(e),
        Ok((IpAddr::V4(_), _)) => Err(DeserializeError::InvalidType(Family::Ipv4)),
        Ok((IpAddr::V6(addr), len)) => Ok((addr, len)),
    }
}

/// What a compact form stands for where it must be an address with a
/// network length: the family, the address as a number and the network
/// length, or why it is none.
pub open spec fn deserialized(tag: u8, bytes: Seq<u8>) -> Result<(Family, nat, u8), DeserializeError> {
    match tag_meaning(tag) {
        None => Err(DeserializeError::InvalidTag),
        Some(Tag::Any) => if bytes.len() == 0 {
            Err(DeserializeError::InvalidValueAny)
        } else {
            Err(DeserializeError::InvalidLength(bytes.len() as usize))
        },
        Some(Tag::Address(family, len)) => if bytes.len() == address_bytes(family) {
            Ok((family, be_value(bytes), len))
        } else {
            Err(DeserializeError::InvalidLength(bytes.len() as usize))
        },
    }
}

/// A compact form that was written is read as what it was written for.
pub proof fn lemma_compact_round_trip(family: Family, address: nat, len: u8, tag: u8, bytes: Seq<u8>)
    requires
        len <= family.width(),
        tag_meaning(tag) == Some(Tag::Address(family, len)),
        bytes.len() == address_bytes(family),
        be_value(bytes) == address,
    ensures
        deserialized(tag, bytes) == Ok::<_, DeserializeError>((family, address, len)),
{
}

} // verus!
