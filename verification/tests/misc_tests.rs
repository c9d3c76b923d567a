use cidr::errors::{InetTupleError, NetworkLengthTooLongError, NetworkParseError};
use cidr::num::NumberOfAddresses;
use cidr::serde_common::addr_len_map::{FieldError, FieldIdentifier, StructVisitor};
use cidr::serde_common::variant::NFKind;
use cidr::serde_common::variant_any::NFAnyKind;
use cidr::serde_common::{
    deserialize, deserialize_any, deserialize_v4, deserialize_v6, serialize, serialize_any,
    serialize_v4, serialize_v6, DeserializeError,
};
use cidr::{
    AnyIpCidr, Family, IpAddr, IpCidr, IpInet, IpInetPair, Ipv4Addr, Ipv4Cidr, Ipv4Inet,
    Ipv4InetPair, Ipv6Addr, Ipv6Cidr, Ipv6Inet, Ipv6InetPair,
};

#[test]
fn new_keeps_address_and_length() {
    let addr = Ipv4Addr::new(192, 0, 2, 48);
    let c = Ipv4Cidr::new(addr, 28).unwrap();
    assert_eq!(c.first_address(), addr);
    assert_eq!(c.network_length(), 28);
    assert_eq!(c.family(), Family::Ipv4);
    let addr6 = Ipv6Addr::new(0x2001, 0xdb8, 0x1234, 0x5678, 0, 0, 0, 0);
    let c6 = Ipv6Cidr::new(addr6, 64).unwrap();
    assert_eq!(c6.first_address(), addr6);
    assert_eq!(c6.network_length(), 64);
    assert_eq!(
        c6.last_address(),
        Ipv6Addr::new(0x2001, 0xdb8, 0x1234, 0x5678, 0xffff, 0xffff, 0xffff, 0xffff)
    );
    assert_eq!(c6.mask(), Ipv6Addr::new(0xffff, 0xffff, 0xffff, 0xffff, 0, 0, 0, 0));
    assert_eq!(c6.to_string(), "2001:db8:1234:5678::/64");
    assert_eq!(c6.last_address().to_string(), "2001:db8:1234:5678:ffff:ffff:ffff:ffff");
    assert_eq!(c6.mask().to_string(), "ffff:ffff:ffff:ffff::");
}

#[test]
fn nonzero_host_part_is_rejected_for_networks_only() {
    let addr = Ipv4Addr::new(10, 1, 1, 1);
    assert_eq!(Ipv4Cidr::new(addr, 24), Err(NetworkParseError::InvalidHostPart));
    let inet = Ipv4Inet::new(addr, 24).unwrap();
    assert_eq!(inet.address(), addr);
    assert_eq!(inet.network(), Ipv4Cidr::new(Ipv4Addr::new(10, 1, 1, 0), 24).unwrap());
    assert_eq!(inet.network().to_string(), "10.1.1.0/24");
    assert_eq!(
        "10.1.1.1/24".parse::<Ipv4Cidr>(),
        Err(NetworkParseError::InvalidHostPart)
    );
    assert_eq!(
        Ipv4Cidr::new(addr, 33),
        Err(NetworkParseError::NetworkLengthTooLongError(NetworkLengthTooLongError::new(
            33,
            Family::Ipv4
        )))
    );
    assert_eq!(
        Ipv4Inet::new(addr, 33),
        Err(NetworkLengthTooLongError::new(33, Family::Ipv4))
    );
    assert_eq!(
        Ipv6Inet::new(Ipv6Addr::new(0, 0, 0, 0, 0, 0, 0, 1), 129),
        Err(NetworkLengthTooLongError::new(129, Family::Ipv6))
    );
    assert_eq!(
        NetworkLengthTooLongError::new(129, Family::Ipv6).to_string(),
        "Network length 129 is too long for Ipv6 (maximum: 128)"
    );
}

#[test]
fn increment_at_the_end_of_the_subnet() {
    let mut last = Ipv4Inet::new(Ipv4Addr::new(192, 0, 2, 255), 24).unwrap();
    assert_eq!(last.next(), None);
    assert!(last.increment());
    assert_eq!(last, Ipv4Inet::new(Ipv4Addr::new(192, 0, 2, 0), 24).unwrap());
    assert_eq!(last.previous(), None);
    assert!(last.decrement());
    assert_eq!(last, Ipv4Inet::new(Ipv4Addr::new(192, 0, 2, 255), 24).unwrap());
    let mut mid = Ipv4Inet::new(Ipv4Addr::new(192, 0, 2, 7), 24).unwrap();
    assert!(!mid.increment());
    assert_eq!(mid.address(), Ipv4Addr::new(192, 0, 2, 8));
    assert_eq!(
        mid.previous(),
        Some(Ipv4Inet::new(Ipv4Addr::new(192, 0, 2, 7), 24).unwrap())
    );
    let mut either = IpInet::V4(last);
    assert!(either.increment());
    assert_eq!(either.address(), IpAddr::V4(Ipv4Addr::new(192, 0, 2, 0)));
    assert!(either.decrement());
    assert_eq!(either.address(), IpAddr::V4(Ipv4Addr::new(192, 0, 2, 255)));
    let mut last6 = Ipv6Inet::new(
        Ipv6Addr::new(0x2001, 0xdb8, 0, 0, 0xffff, 0xffff, 0xffff, 0xffff),
        64,
    )
    .unwrap();
    assert!(last6.increment());
    assert_eq!(last6.address(), Ipv6Addr::new(0x2001, 0xdb8, 0, 0, 0, 0, 0, 0));
}

#[test]
fn overflowing_steps() {
    let inet = Ipv4Inet::new(Ipv4Addr::new(192, 0, 2, 250), 24).unwrap();
    assert_eq!(
        inet.overflowing_add(5),
        (Ipv4Inet::new(Ipv4Addr::new(192, 0, 2, 255), 24).unwrap(), false)
    );
    assert_eq!(
        inet.overflowing_add(6),
        (Ipv4Inet::new(Ipv4Addr::new(192, 0, 2, 0), 24).unwrap(), true)
    );
    assert_eq!(
        inet.overflowing_add(256 + 7),
        (Ipv4Inet::new(Ipv4Addr::new(192, 0, 2, 1), 24).unwrap(), true)
    );
    assert_eq!(
        inet.overflowing_add((1u128 << 32) + 1),
        (Ipv4Inet::new(Ipv4Addr::new(192, 0, 2, 251), 24).unwrap(), true)
    );
    assert_eq!(
        inet.overflowing_add_u32(u32::MAX),
        (Ipv4Inet::new(Ipv4Addr::new(192, 0, 2, 249), 24).unwrap(), true)
    );
    assert_eq!(
        inet.overflowing_sub(250),
        (Ipv4Inet::new(Ipv4Addr::new(192, 0, 2, 0), 24).unwrap(), false)
    );
    assert_eq!(
        inet.overflowing_sub(251),
        (Ipv4Inet::new(Ipv4Addr::new(192, 0, 2, 255), 24).unwrap(), true)
    );
    assert_eq!(
        inet.overflowing_sub_u32(1),
        (Ipv4Inet::new(Ipv4Addr::new(192, 0, 2, 249), 24).unwrap(), false)
    );
    assert_eq!(inet + 5u128, Ipv4Inet::new(Ipv4Addr::new(192, 0, 2, 255), 24).unwrap());
    assert_eq!(inet - 5u32, Ipv4Inet::new(Ipv4Addr::new(192, 0, 2, 245), 24).unwrap());
    assert_eq!(
        IpInet::V4(inet) - 250,
        IpInet::V4(Ipv4Inet::new(Ipv4Addr::new(192, 0, 2, 0), 24).unwrap())
    );
    let whole = Ipv4Inet::new(Ipv4Addr::new(255, 255, 255, 255), 0).unwrap();
    assert_eq!(
        whole.overflowing_add(1),
        (Ipv4Inet::new(Ipv4Addr::new(0, 0, 0, 0), 0).unwrap(), true)
    );
    let host = Ipv4Inet::new_host(Ipv4Addr::new(1, 2, 3, 4));
    assert_eq!(host.overflowing_add(1), (host, true));
    assert_eq!(host.overflowing_add(0), (host, false));
    let inet6 = Ipv6Inet::new(Ipv6Addr::new(1, 0, 0, 0, 0, 0, 0, 0xfffe), 112).unwrap();
    assert_eq!(
        inet6.overflowing_add(3),
        (Ipv6Inet::new(Ipv6Addr::new(1, 0, 0, 0, 0, 0, 0, 1), 112).unwrap(), true)
    );
    assert_eq!(
        inet6 + 1,
        Ipv6Inet::new(Ipv6Addr::new(1, 0, 0, 0, 0, 0, 0, 0xffff), 112).unwrap()
    );
}

#[test]
fn any_contains_everything() {
    let any = "any".parse::<AnyIpCidr>().unwrap();
    assert_eq!(any, AnyIpCidr::Any);
    assert!(any.is_any());
    assert!(!any.is_ipv4());
    assert!(!any.is_ipv6());
    assert!(any.contains(&IpAddr::V4(Ipv4Addr::new(1, 2, 3, 4))));
    assert!(any.contains(&IpAddr::V6(Ipv6Addr::new(1, 2, 3, 4, 5, 6, 7, 8))));
    assert_eq!(any.first_address(), None);
    assert_eq!(any.last_address(), None);
    assert_eq!(any.first(), None);
    assert_eq!(any.last(), None);
    assert_eq!(any.mask(), None);
    assert_eq!(any.network_length(), None);
    assert_eq!(any.family(), None);
    assert!(!any.is_host_address());
    assert_eq!(any.to_string(), "any");
    assert_eq!(any.to_debug_string(), "Any");
    let v4 = "192.0.2.0/24".parse::<AnyIpCidr>().unwrap();
    assert_eq!(
        v4,
        AnyIpCidr::V4(Ipv4Cidr::new(Ipv4Addr::new(192, 0, 2, 0), 24).unwrap())
    );
    assert!(v4.contains(&IpAddr::V4(Ipv4Addr::new(192, 0, 2, 9))));
    assert!(!v4.contains(&IpAddr::V4(Ipv4Addr::new(192, 0, 3, 9))));
    assert!(!v4.contains(&IpAddr::V6(Ipv6Addr::new(0, 0, 0, 0, 0, 0, 0xc000, 0x0209))));
    assert_eq!(v4.to_string(), "192.0.2.0/24");
    assert_eq!(v4.to_debug_string(), "V4(192.0.2.0/24)");
    assert_eq!(Option::<IpCidr>::from(v4), Some("192.0.2.0/24".parse::<IpCidr>().unwrap()));
    assert_eq!(AnyIpCidr::from(None), AnyIpCidr::Any);
    assert!(AnyIpCidr::Any < v4);
    assert!(v4 < "::/0".parse::<AnyIpCidr>().unwrap());
}

#[test]
fn mixed_families_never_match() {
    let c = "192.0.2.0/24".parse::<IpCidr>().unwrap();
    assert!(!c.contains(&IpAddr::V6(Ipv6Addr::new(0, 0, 0, 0, 0, 0, 0, 1))));
    let i = "::1/64".parse::<IpInet>().unwrap();
    assert!(!i.contains(&IpAddr::V4(Ipv4Addr::new(0, 0, 0, 1))));
    assert_eq!(
        IpInetPair::new(
            "10.0.0.1/8".parse::<IpInet>().unwrap(),
            "::1/8".parse::<IpInet>().unwrap()
        ),
        Err(InetTupleError::NotInSharedNetwork)
    );
    assert_eq!(
        IpInetPair::new_from_addresses(
            IpAddr::V4(Ipv4Addr::new(0, 0, 0, 1)),
            IpAddr::V6(Ipv6Addr::new(0, 0, 0, 0, 0, 0, 0, 1)),
            0
        ),
        Err(InetTupleError::NotInSharedNetwork)
    );
}

#[test]
fn pairs() {
    let a = "10.0.0.1/8".parse::<Ipv4Inet>().unwrap();
    let b = "10.9.0.1/8".parse::<Ipv4Inet>().unwrap();
    let c = "10.9.0.1/9".parse::<Ipv4Inet>().unwrap();
    let d = "11.0.0.1/8".parse::<Ipv4Inet>().unwrap();
    let pair = Ipv4InetPair::new(a, b).unwrap();
    assert_eq!(pair.first(), a);
    assert_eq!(pair.second(), b);
    assert_eq!(pair.network(), "10.0.0.0/8".parse::<Ipv4Cidr>().unwrap());
    assert_eq!(pair.network_length(), 8);
    assert_eq!(pair.family(), Family::Ipv4);
    assert_eq!(pair.to_string(), "(10.0.0.1/8, 10.9.0.1/8)");
    assert_eq!(Ipv4InetPair::new(a, c), Err(InetTupleError::NotInSharedNetwork));
    assert_eq!(Ipv4InetPair::new(a, d), Err(InetTupleError::NotInSharedNetwork));
    assert_eq!(Ipv4InetPair::new(b, a), Err(InetTupleError::NotInSharedNetwork));
    assert_eq!(
        Ipv4InetPair::new_from_addresses(a.address(), b.address(), 40),
        Err(InetTupleError::NetworkLengthTooLongError(NetworkLengthTooLongError::new(
            40,
            Family::Ipv4
        )))
    );
    assert_eq!(
        InetTupleError::NotInSharedNetwork.to_string(),
        "addresses not in shared network"
    );
    assert_eq!(
        InetTupleError::NetworkLengthTooLongError(NetworkLengthTooLongError::new(40, Family::Ipv4))
            .to_string(),
        "invalid length for network: Network length 40 is too long for Ipv4 (maximum: 32)"
    );
    assert!(IpInetPair::V4(pair).is_ipv4());
    assert!(!IpInetPair::V4(pair).is_ipv6());
    assert_eq!(pair.iter().size_hint(), (9 * 65536 + 1, Some(9 * 65536 + 1)));
}

#[test]
fn counts() {
    assert_eq!(NumberOfAddresses::count_from_distance(0), NumberOfAddresses::Count(1));
    assert_eq!(
        NumberOfAddresses::count_from_distance(u128::MAX - 1),
        NumberOfAddresses::Count(u128::MAX)
    );
    assert_eq!(
        NumberOfAddresses::count_from_distance(u128::MAX),
        NumberOfAddresses::MaxIpv6Addresses
    );
    assert_eq!(
        NumberOfAddresses::Count(u128::MAX).to_string(),
        "340282366920938463463374607431768211455"
    );
    assert_eq!(NumberOfAddresses::Count(0).to_string(), "0");
}

#[test]
fn family_addresses() {
    assert_eq!(Family::Ipv4.len(), 32);
    assert_eq!(Family::Ipv6.len(), 128);
    assert_eq!(Family::Ipv4.unspecified_address(), IpAddr::V4(Ipv4Addr::new(0, 0, 0, 0)));
    assert_eq!(
        Family::Ipv6.unspecified_address(),
        IpAddr::V6(Ipv6Addr::new(0, 0, 0, 0, 0, 0, 0, 0))
    );
    assert_eq!(Family::Ipv4.loopback_address(), IpAddr::V4(Ipv4Addr::new(127, 0, 0, 1)));
    assert_eq!(
        Family::Ipv6.loopback_address(),
        IpAddr::V6(Ipv6Addr::new(0, 0, 0, 0, 0, 0, 0, 1))
    );
}

#[test]
fn address_parts() {
    let a = Ipv4Addr::new(192, 0, 2, 48);
    assert_eq!(a.to_bits(), 0xc000_0230);
    assert_eq!(a.octets(), [192, 0, 2, 48]);
    assert_eq!(Ipv4Addr::from_bits(0xc000_0230), a);
    assert_eq!(Ipv4Addr::from_octets([192, 0, 2, 48]), a);
    let b = Ipv6Addr::new(0x2001, 0xdb8, 0, 1, 2, 3, 4, 0xffff);
    assert_eq!(b.to_bits(), 0x2001_0db8_0000_0001_0002_0003_0004_ffff);
    assert_eq!(b.segments(), [0x2001, 0xdb8, 0, 1, 2, 3, 4, 0xffff]);
    assert_eq!(
        b.octets(),
        [0x20, 0x01, 0x0d, 0xb8, 0, 0, 0, 1, 0, 2, 0, 3, 0, 4, 0xff, 0xff]
    );
    assert_eq!(Ipv6Addr::from_octets(b.octets()), b);
    assert_eq!(Ipv6Addr::from(b.octets()), b);
    assert!(IpAddr::V4(a).is_ipv4());
    assert!(IpAddr::V6(b).is_ipv6());
    assert!(IpAddr::V4(a) < IpAddr::V6(b));
}

#[test]
fn ipv6_texts() {
    let t = |a: Ipv6Addr| a.to_string();
    assert_eq!(t(Ipv6Addr::new(0, 0, 0, 0, 0, 0, 0, 0)), "::");
    assert_eq!(t(Ipv6Addr::new(0, 0, 0, 0, 0, 0, 0, 1)), "::1");
    assert_eq!(t(Ipv6Addr::new(1, 0, 0, 0, 0, 0, 0, 0)), "1::");
    assert_eq!(t(Ipv6Addr::new(1, 0, 0, 2, 0, 0, 0, 3)), "1:0:0:2::3");
    assert_eq!(t(Ipv6Addr::new(1, 0, 0, 2, 0, 0, 3, 4)), "1::2:0:0:3:4");
    assert_eq!(t(Ipv6Addr::new(1, 0, 2, 0, 3, 0, 4, 0)), "1:0:2:0:3:0:4:0");
    assert_eq!(t(Ipv6Addr::new(0, 0, 0, 0, 0, 0xffff, 0x0102, 0x0304)), "::ffff:1.2.3.4");
    assert_eq!(t(Ipv6Addr::new(0, 0, 0, 0, 0, 0, 0x0102, 0x0304)), "::102:304");
    assert_eq!(
        t(Ipv6Addr::new(0xabcd, 0xef01, 0x2345, 0x6789, 0xa, 0xb0, 0xc00, 0xd000)),
        "abcd:ef01:2345:6789:a:b0:c00:d000"
    );
    assert_eq!(Ipv4Addr::new(0, 10, 100, 255).to_string(), "0.10.100.255");
    assert_eq!(IpAddr::V4(Ipv4Addr::new(1, 2, 3, 4)).to_string(), "1.2.3.4");
}

#[test]
fn texts_are_read_back() {
    for a in [
        Ipv6Addr::new(0, 0, 0, 0, 0, 0, 0, 0),
        Ipv6Addr::new(1, 0, 0, 2, 0, 0, 0, 3),
        Ipv6Addr::new(0, 0, 0, 0, 0, 0xffff, 0x0102, 0x0304),
        Ipv6Addr::new(1, 2, 3, 4, 5, 6, 7, 0),
        Ipv6Addr::new(0, 2, 3, 4, 5, 6, 7, 8),
    ] {
        assert_eq!(a.to_string().parse::<Ipv6Addr>(), Ok(a));
        for len in [0u8, 1, 64, 127, 128] {
            let inet = Ipv6Inet::new(a, len).unwrap();
            assert_eq!(inet.to_string().parse::<Ipv6Inet>(), Ok(inet));
            assert_eq!(inet.to_string_alternate().parse::<Ipv6Inet>(), Ok(inet));
            let cidr = inet.network();
            assert_eq!(cidr.to_string().parse::<Ipv6Cidr>(), Ok(cidr));
        }
    }
}

#[test]
fn kinds() {
    assert_eq!(NFKind::V4.name(), "V4");
    assert_eq!(NFKind::V6.name(), "V6");
    assert_eq!(NFKind::V4.index(), 1);
    assert_eq!(NFKind::V6.serialize_newtype_variant(), (2, "V6"));
    assert_eq!(NFKind::from_index(1), Some(NFKind::V4));
    assert_eq!(NFKind::from_index(0), None);
    assert_eq!(NFKind::from_name("V6"), Some(NFKind::V6));
    assert_eq!(NFKind::from_name("v6"), None);
    assert_eq!(NFKind::from_bytes(b"V4"), Some(NFKind::V4));
    assert_eq!(NFAnyKind::Any.name(), "Any");
    assert_eq!(NFAnyKind::V4.name(), "V4");
    assert_eq!(NFAnyKind::Any.serialize_unit_variant(), (0, "Any"));
    assert_eq!(NFAnyKind::V6.serialize_newtype_variant(), (2, "V6"));
    assert_eq!(NFAnyKind::from_index(0), Some(NFAnyKind::Any));
    assert_eq!(NFAnyKind::from_index(3), None);
    assert_eq!(NFAnyKind::from_name("Any"), Some(NFAnyKind::Any));
    assert_eq!(NFAnyKind::from_bytes(b"V6"), Some(NFAnyKind::V6));
    assert_eq!(NFAnyKind::from_bytes(b"\xff"), None);
}

#[test]
fn fields() {
    assert_eq!(FieldIdentifier::from_name("address"), Some(FieldIdentifier::Address));
    assert_eq!(
        FieldIdentifier::from_bytes(b"network_length"),
        Some(FieldIdentifier::NetworkLength)
    );
    assert_eq!(FieldIdentifier::from_name("len"), None);
    assert_eq!(
        cidr::serde_common::addr_len_map::serialize(),
        [FieldIdentifier::Address, FieldIdentifier::NetworkLength]
    );
    let mut v: StructVisitor<Ipv4Addr> = StructVisitor::new();
    assert_eq!(v.visit_key(FieldIdentifier::NetworkLength), Ok(()));
    v.visit_network_length(24);
    assert_eq!(
        v.visit_key(FieldIdentifier::NetworkLength),
        Err(FieldError::DuplicateField(FieldIdentifier::NetworkLength))
    );
    assert_eq!(v.visit_key(FieldIdentifier::Address), Ok(()));
    v.visit_address(Ipv4Addr::new(1, 2, 3, 0));
    assert_eq!(v.deserialize(), Ok((Ipv4Addr::new(1, 2, 3, 0), 24)));
    let empty: StructVisitor<Ipv4Addr> = StructVisitor::new();
    assert_eq!(
        empty.deserialize(),
        Err(FieldError::MissingField(FieldIdentifier::Address))
    );
    let mut half: StructVisitor<Ipv4Addr> = StructVisitor::new();
    half.visit_address(Ipv4Addr::new(1, 2, 3, 0));
    assert_eq!(
        half.deserialize(),
        Err(FieldError::MissingField(FieldIdentifier::NetworkLength))
    );
}

#[test]
fn compact_form() {
    let v4 = Ipv4Addr::new(192, 0, 2, 0);
    let v6 = Ipv6Addr::new(0x2001, 0xdb8, 0, 0, 0, 0, 0, 0);
    assert_eq!(serialize_v4((v4, 24)), (24, vec![192, 0, 2, 0]));
    assert_eq!(
        serialize_v6((v6, 32)),
        (96, vec![0x20, 0x01, 0x0d, 0xb8, 0, 0, 0, 0, 0, 0, 0, 0, 0, 0, 0, 0])
    );
    assert_eq!(serialize((IpAddr::V4(v4), 0)), (0, vec![192, 0, 2, 0]));
    assert_eq!(serialize_any(None), (0xff, vec![]));
    assert_eq!(serialize_v6((v6, 128)).0, 0xc0);
    assert_eq!(deserialize_any(0xff, &[]), Ok(None));
    assert_eq!(deserialize_any(24, &[192, 0, 2, 0]), Ok(Some((IpAddr::V4(v4), 24))));
    assert_eq!(deserialize_v4(24, &[192, 0, 2, 0]), Ok((v4, 24)));
    let (tag, bytes) = serialize_v6((v6, 32));
    assert_eq!(deserialize_v6(tag, &bytes), Ok((v6, 32)));
    assert_eq!(deserialize(tag, &bytes), Ok((IpAddr::V6(v6), 32)));
    assert_eq!(deserialize_v4(tag, &bytes), Err(DeserializeError::InvalidType(Family::Ipv6)));
    assert_eq!(
        deserialize_v6(24, &[192, 0, 2, 0]),
        Err(DeserializeError::InvalidType(Family::Ipv4))
    );
    assert_eq!(deserialize(0xff, &[]), Err(DeserializeError::InvalidValueAny));
    assert_eq!(deserialize_any(0x21, &[1, 2, 3, 4]), Err(DeserializeError::InvalidTag));
    assert_eq!(deserialize_any(0xc1, &[0; 16]), Err(DeserializeError::InvalidTag));
    assert_eq!(deserialize_any(0x20, &[1, 2, 3]), Err(DeserializeError::InvalidLength(3)));
    assert_eq!(deserialize_any(0x40, &[1, 2, 3, 4]), Err(DeserializeError::InvalidLength(4)));
    assert_eq!(deserialize_any(0xff, &[1]), Err(DeserializeError::InvalidLength(1)));
}

#[test]
fn pair_debug_texts() {
    let a = "10.0.0.1/8".parse::<Ipv4Inet>().unwrap();
    let b = "10.9.0.1/8".parse::<Ipv4Inet>().unwrap();
    let pair = Ipv4InetPair::new(a, b).unwrap();
    assert_eq!(
        pair.to_debug_string(),
        "Ipv4InetPair { first: 10.0.0.1/8, second: 10.9.0.1/8 }"
    );
    assert_eq!(
        IpInetPair::V4(pair).to_debug_string(),
        "V4(Ipv4InetPair { first: 10.0.0.1/8, second: 10.9.0.1/8 })"
    );
    assert_eq!(IpInetPair::V4(pair).to_string(), "(10.0.0.1/8, 10.9.0.1/8)");
    let host = Ipv6Inet::new_host(Ipv6Addr::new(0x2001, 0xdb8, 0, 0, 0, 0, 0, 1));
    let single = Ipv6InetPair::new(host, host).unwrap();
    assert_eq!(single.to_string(), "(2001:db8::1, 2001:db8::1)");
    assert_eq!(
        single.to_debug_string(),
        "Ipv6InetPair { first: 2001:db8::1/128, second: 2001:db8::1/128 }"
    );
    assert_eq!(
        IpInetPair::V6(single).to_debug_string(),
        "V6(Ipv6InetPair { first: 2001:db8::1/128, second: 2001:db8::1/128 })"
    );
}

#[test]
fn any_cidr_is_of_exactly_one_kind() {
    let any = AnyIpCidr::Any;
    let v4 = "192.0.2.0/24".parse::<AnyIpCidr>().unwrap();
    let v6 = "2001:db8::/32".parse::<AnyIpCidr>().unwrap();
    assert_eq!((any.is_any(), any.is_ipv4(), any.is_ipv6()), (true, false, false));
    assert_eq!((v4.is_any(), v4.is_ipv4(), v4.is_ipv6()), (false, true, false));
    assert_eq!((v6.is_any(), v6.is_ipv4(), v6.is_ipv6()), (false, false, true));
    assert_eq!(any.family(), None);
}

#[test]
fn fields_in_either_order() {
    let mut a: StructVisitor<Ipv4Addr> = StructVisitor::new();
    assert_eq!(a.visit_key(FieldIdentifier::Address), Ok(()));
    a.visit_address(Ipv4Addr::new(10, 0, 0, 0));
    assert_eq!(
        a.visit_key(FieldIdentifier::Address),
        Err(FieldError::DuplicateField(FieldIdentifier::Address))
    );
    assert_eq!(a.visit_key(FieldIdentifier::NetworkLength), Ok(()));
    a.visit_network_length(8);
    assert_eq!(a.deserialize(), Ok((Ipv4Addr::new(10, 0, 0, 0), 8)));
    let mut only_length: StructVisitor<Ipv4Addr> = StructVisitor::new();
    only_length.visit_network_length(8);
    assert_eq!(
        only_length.deserialize(),
        Err(FieldError::MissingField(FieldIdentifier::Address))
    );
}
