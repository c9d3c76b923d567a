use cidr::serde_common::{
    deserialize, deserialize_any, deserialize_v4, deserialize_v6, serialize, serialize_any,
    serialize_v4, serialize_v6,
};
use cidr::{AnyIpCidr, IpCidr, IpInet, Ipv4Cidr, Ipv4Inet, Ipv6Cidr, Ipv6Inet};

fn compact(raw: &[u8]) -> (u8, Vec<u8>) {
    (raw[0], raw[1..].to_vec())
}

#[test]
fn test_ipv4() {
    let c: Ipv4Cidr = "192.0.2.0/24".parse().unwrap();
    assert_eq!(c.to_string(), "192.0.2.0/24");
    assert_eq!("192.0.2.0/24".parse::<Ipv4Cidr>(), Ok(c));

    let raw: &[u8] = &[24, 192, 0, 2, 0];
    assert_eq!(serialize_v4((c.first_address(), c.network_length())), compact(raw));
    let (addr, len) = deserialize_v4(raw[0], &raw[1..]).unwrap();
    assert_eq!(Ipv4Cidr::new(addr, len).unwrap(), c);
}

#[test]
fn test_ipv4_host() {
    let c: Ipv4Cidr = "192.0.2.1/32".parse().unwrap();
    assert_eq!(c.to_string(), "192.0.2.1");
    assert_eq!("192.0.2.1".parse::<Ipv4Cidr>(), Ok(c));

    let raw: &[u8] = &[32, 192, 0, 2, 1];
    assert_eq!(serialize_v4((c.first_address(), c.network_length())), compact(raw));
    let (addr, len) = deserialize_v4(raw[0], &raw[1..]).unwrap();
    assert_eq!(Ipv4Cidr::new(addr, len).unwrap(), c);
}

#[test]
fn test_ipv6() {
    let c: Ipv6Cidr = "2001:DB8:1234:5678::/64".parse().unwrap();
    assert_eq!(c.to_string(), "2001:db8:1234:5678::/64");
    assert_eq!("2001:db8:1234:5678::/64".parse::<Ipv6Cidr>(), Ok(c));

    let raw: &[u8] = &[64 + 0x40, 0x20, 0x01, 0x0d, 0xb8, 0x12, 0x34, 0x56, 0x78, 0, 0, 0, 0, 0, 0, 0, 0];
    assert_eq!(serialize_v6((c.first_address(), c.network_length())), compact(raw));
    let (addr, len) = deserialize_v6(raw[0], &raw[1..]).unwrap();
    assert_eq!(Ipv6Cidr::new(addr, len).unwrap(), c);
}

#[test]
fn test_ipv6_host() {
    let c: Ipv6Cidr = "2001:DB8:1234:5678:1:2:3:4/128".parse().unwrap();
    assert_eq!(c.to_string(), "2001:db8:1234:5678:1:2:3:4");
    assert_eq!("2001:db8:1234:5678:1:2:3:4".parse::<Ipv6Cidr>(), Ok(c));

    let raw: &[u8] = &[128 + 0x40, 0x20, 0x01, 0x0d, 0xb8, 0x12, 0x34, 0x56, 0x78, 0, 1, 0, 2, 0, 3, 0, 4];
    assert_eq!(serialize_v6((c.first_address(), c.network_length())), compact(raw));
    let (addr, len) = deserialize_v6(raw[0], &raw[1..]).unwrap();
    assert_eq!(Ipv6Cidr::new(addr, len).unwrap(), c);
}

#[test]
fn test_cidr_v4() {
    let c: IpCidr = "192.0.2.0/24".parse().unwrap();
    assert_eq!(c.to_string(), "192.0.2.0/24");
    assert_eq!("192.0.2.0/24".parse::<IpCidr>(), Ok(c));

    let raw: &[u8] = &[24, 192, 0, 2, 0];
    assert_eq!(serialize((c.first_address(), c.network_length())), compact(raw));
    let (addr, len) = deserialize(raw[0], &raw[1..]).unwrap();
    assert_eq!(IpCidr::new(addr, len).unwrap(), c);
}

#[test]
fn test_cidr_v4_host() {
    let c: IpCidr = "192.0.2.1/32".parse().unwrap();
    assert_eq!(c.to_string(), "192.0.2.1");
    assert_eq!("192.0.2.1".parse::<IpCidr>(), Ok(c));

    let raw: &[u8] = &[32, 192, 0, 2, 1];
    assert_eq!(serialize((c.first_address(), c.network_length())), compact(raw));
    let (addr, len) = deserialize(raw[0], &raw[1..]).unwrap();
    assert_eq!(IpCidr::new(addr, len).unwrap(), c);
}

#[test]
fn test_cidr_v6() {
    let c: IpCidr = "2001:DB8:1234:5678::/64".parse().unwrap();
    assert_eq!(c.to_string(), "2001:db8:1234:5678::/64");
    assert_eq!("2001:db8:1234:5678::/64".parse::<IpCidr>(), Ok(c));

    let raw: &[u8] = &[64 + 0x40, 0x20, 0x01, 0x0d, 0xb8, 0x12, 0x34, 0x56, 0x78, 0, 0, 0, 0, 0, 0, 0, 0];
    assert_eq!(serialize((c.first_address(), c.network_length())), compact(raw));
    let (addr, len) = deserialize(raw[0], &raw[1..]).unwrap();
    assert_eq!(IpCidr::new(addr, len).unwrap(), c);
}

#[test]
fn test_cidr_v6_host() {
    let c: IpCidr = "2001:DB8:1234:5678:1:2:3:4/128".parse().unwrap();
    assert_eq!(c.to_string(), "2001:db8:1234:5678:1:2:3:4");
    assert_eq!("2001:db8:1234:5678:1:2:3:4".parse::<IpCidr>(), Ok(c));

    let raw: &[u8] = &[128 + 0x40, 0x20, 0x01, 0x0d, 0xb8, 0x12, 0x34, 0x56, 0x78, 0, 1, 0, 2, 0, 3, 0, 4];
    assert_eq!(serialize((c.first_address(), c.network_length())), compact(raw));
    let (addr, len) = deserialize(raw[0], &raw[1..]).unwrap();
    assert_eq!(IpCidr::new(addr, len).unwrap(), c);
}

#[test]
fn test_any_cidr_any() {
    let c: AnyIpCidr = "any".parse().unwrap();
    assert_eq!(c, AnyIpCidr::Any);
    assert_eq!(c.to_string(), "any");

    let raw: &[u8] = &[0xff];
    assert_eq!(serialize_any(None), compact(raw));
    assert_eq!(deserialize_any(raw[0], &raw[1..]), Ok(None));
}

#[test]
fn test_any_cidr_v4() {
    let c: AnyIpCidr = "192.0.2.0/24".parse().unwrap();
    assert_eq!(c.to_string(), "192.0.2.0/24");
    assert_eq!("192.0.2.0/24".parse::<AnyIpCidr>(), Ok(c));

    let raw: &[u8] = &[24, 192, 0, 2, 0];
    let parts = (c.first_address().unwrap(), c.network_length().unwrap());
    assert_eq!(serialize_any(Some(parts)), compact(raw));
    let (addr, len) = deserialize_any(raw[0], &raw[1..]).unwrap().unwrap();
    assert_eq!(AnyIpCidr::new(addr, len).unwrap(), c);
}

#[test]
fn test_any_cidr_v4_host() {
    let c: AnyIpCidr = "192.0.2.1/32".parse().unwrap();
    assert_eq!(c.to_string(), "192.0.2.1");
    assert_eq!("192.0.2.1".parse::<AnyIpCidr>(), Ok(c));

    let raw: &[u8] = &[32, 192, 0, 2, 1];
    let parts = (c.first_address().unwrap(), c.network_length().unwrap());
    assert_eq!(serialize_any(Some(parts)), compact(raw));
    let (addr, len) = deserialize_any(raw[0], &raw[1..]).unwrap().unwrap();
    assert_eq!(AnyIpCidr::new(addr, len).unwrap(), c);
}

#[test]
fn test_any_cidr_v6() {
    let c: AnyIpCidr = "2001:DB8:1234:5678::/64".parse().unwrap();
    assert_eq!(c.to_string(), "2001:db8:1234:5678::/64");
    assert_eq!("2001:db8:1234:5678::/64".parse::<AnyIpCidr>(), Ok(c));

    let raw: &[u8] = &[64 + 0x40, 0x20, 0x01, 0x0d, 0xb8, 0x12, 0x34, 0x56, 0x78, 0, 0, 0, 0, 0, 0, 0, 0];
    let parts = (c.first_address().unwrap(), c.network_length().unwrap());
    assert_eq!(serialize_any(Some(parts)), compact(raw));
    let (addr, len) = deserialize_any(raw[0], &raw[1..]).unwrap().unwrap();
    assert_eq!(AnyIpCidr::new(addr, len).unwrap(), c);
}

#[test]
fn test_any_cidr_v6_host() {
    let c: AnyIpCidr = "2001:DB8:1234:5678:1:2:3:4/128".parse().unwrap();
    assert_eq!(c.to_string(), "2001:db8:1234:5678:1:2:3:4");
    assert_eq!("2001:db8:1234:5678:1:2:3:4".parse::<AnyIpCidr>(), Ok(c));

    let raw: &[u8] = &[128 + 0x40, 0x20, 0x01, 0x0d, 0xb8, 0x12, 0x34, 0x56, 0x78, 0, 1, 0, 2, 0, 3, 0, 4];
    let parts = (c.first_address().unwrap(), c.network_length().unwrap());
    assert_eq!(serialize_any(Some(parts)), compact(raw));
    let (addr, len) = deserialize_any(raw[0], &raw[1..]).unwrap().unwrap();
    assert_eq!(AnyIpCidr::new(addr, len).unwrap(), c);
}

#[test]
fn tests_test_ipv4() {
    let c: Ipv4Inet = "192.0.2.1/24".parse().unwrap();
    assert_eq!(c.to_string(), "192.0.2.1/24");
    assert_eq!("192.0.2.1/24".parse::<Ipv4Inet>(), Ok(c));

    let raw: &[u8] = &[24, 192, 0, 2, 1];
    assert_eq!(serialize_v4((c.address(), c.network_length())), compact(raw));
    let (addr, len) = deserialize_v4(raw[0], &raw[1..]).unwrap();
    assert_eq!(Ipv4Inet::new(addr, len).unwrap(), c);
}

#[test]
fn tests_test_ipv4_host() {
    let c: Ipv4Inet = "192.0.2.1/32".parse().unwrap();
    assert_eq!(c.to_string(), "192.0.2.1");
    assert_eq!("192.0.2.1".parse::<Ipv4Inet>(), Ok(c));

    let raw: &[u8] = &[32, 192, 0, 2, 1];
    assert_eq!(serialize_v4((c.address(), c.network_length())), compact(raw));
    let (addr, len) = deserialize_v4(raw[0], &raw[1..]).unwrap();
    assert_eq!(Ipv4Inet::new(addr, len).unwrap(), c);
}

#[test]
fn tests_test_ipv6() {
    let c: Ipv6Inet = "2001:DB8:1234:5678:1:2:3:4/64".parse().unwrap();
    assert_eq!(c.to_string(), "2001:db8:1234:5678:1:2:3:4/64");
    assert_eq!("2001:db8:1234:5678:1:2:3:4/64".parse::<Ipv6Inet>(), Ok(c));

    let raw: &[u8] = &[64 + 0x40, 0x20, 0x01, 0x0d, 0xb8, 0x12, 0x34, 0x56, 0x78, 0, 1, 0, 2, 0, 3, 0, 4];
    assert_eq!(serialize_v6((c.address(), c.network_length())), compact(raw));
    let (addr, len) = deserialize_v6(raw[0], &raw[1..]).unwrap();
    assert_eq!(Ipv6Inet::new(addr, len).unwrap(), c);
}

#[test]
fn tests_test_ipv6_host() {
    let c: Ipv6Inet = "2001:DB8:1234:5678:1:2:3:4/128".parse().unwrap();
    assert_eq!(c.to_string(), "2001:db8:1234:5678:1:2:3:4");
    assert_eq!("2001:db8:1234:5678:1:2:3:4".parse::<Ipv6Inet>(), Ok(c));

    let raw: &[u8] = &[128 + 0x40, 0x20, 0x01, 0x0d, 0xb8, 0x12, 0x34, 0x56, 0x78, 0, 1, 0, 2, 0, 3, 0, 4];
    assert_eq!(serialize_v6((c.address(), c.network_length())), compact(raw));
    let (addr, len) = deserialize_v6(raw[0], &raw[1..]).unwrap();
    assert_eq!(Ipv6Inet::new(addr, len).unwrap(), c);
}

#[test]
fn test_inet_v4() {
    let c: IpInet = "192.0.2.1/24".parse().unwrap();
    assert_eq!(c.to_string(), "192.0.2.1/24");
    assert_eq!("192.0.2.1/24".parse::<IpInet>(), Ok(c));

    let raw: &[u8] = &[24, 192, 0, 2, 1];
    assert_eq!(serialize((c.address(), c.network_length())), compact(raw));
    let (addr, len) = deserialize(raw[0], &raw[1..]).unwrap();
    assert_eq!(IpInet::new(addr, len).unwrap(), c);
}

#[test]
fn test_inet_v4_host() {
    let c: IpInet = "192.0.2.1/32".parse().unwrap();
    assert_eq!(c.to_string(), "192.0.2.1");
    assert_eq!("192.0.2.1".parse::<IpInet>(), Ok(c));

    let raw: &[u8] = &[32, 192, 0, 2, 1];
    assert_eq!(serialize((c.address(), c.network_length())), compact(raw));
    let (addr, len) = deserialize(raw[0], &raw[1..]).unwrap();
    assert_eq!(IpInet::new(addr, len).unwrap(), c);
}

#[test]
fn test_inet_v6() {
    let c: IpInet = "2001:DB8:1234:5678:1:2:3:4/64".parse().unwrap();
    assert_eq!(c.to_string(), "2001:db8:1234:5678:1:2:3:4/64");
    assert_eq!("2001:db8:1234:5678:1:2:3:4/64".parse::<IpInet>(), Ok(c));

    let raw: &[u8] = &[64 + 0x40, 0x20, 0x01, 0x0d, 0xb8, 0x12, 0x34, 0x56, 0x78, 0, 1, 0, 2, 0, 3, 0, 4];
    assert_eq!(serialize((c.address(), c.network_length())), compact(raw));
    let (addr, len) = deserialize(raw[0], &raw[1..]).unwrap();
    assert_eq!(IpInet::new(addr, len).unwrap(), c);
}

#[test]
fn test_inet_v6_host() {
    let c: IpInet = "2001:DB8:1234:5678:1:2:3:4/128".parse().unwrap();
    assert_eq!(c.to_string(), "2001:db8:1234:5678:1:2:3:4");
    assert_eq!("2001:db8:1234:5678:1:2:3:4".parse::<IpInet>(), Ok(c));

    let raw: &[u8] = &[128 + 0x40, 0x20, 0x01, 0x0d, 0xb8, 0x12, 0x34, 0x56, 0x78, 0, 1, 0, 2, 0, 3, 0, 4];
    assert_eq!(serialize((c.address(), c.network_length())), compact(raw));
    let (addr, len) = deserialize(raw[0], &raw[1..]).unwrap();
    assert_eq!(IpInet::new(addr, len).unwrap(), c);
}
