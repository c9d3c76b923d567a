use cidr::{AnyIpCidr, Ipv4Cidr, Ipv4Inet, Ipv6Cidr, Ipv6Inet};

#[test]
fn ipv4_clip() {
    let mut c = "192.168.0.0/16".parse::<Ipv4Cidr>().unwrap();
    c.clip(2);
    assert_eq!(c.len(), 2);
    assert_eq!(c, "192.0.0.0/2".parse::<Ipv4Cidr>().unwrap());
}

#[test]
fn ipv4_any_clip() {
    let mut c = "192.168.0.0/16".parse::<AnyIpCidr>().unwrap();
    c.clip(2);
    assert_eq!(c.len(), 2);
    assert_eq!(c, "128.0.0.0/1".parse::<AnyIpCidr>().unwrap());
}

#[test]
fn ipv6_clip() {
    let mut c = "2001:db8:1234:5678::/64".parse::<Ipv6Cidr>().unwrap();
    c.clip(4);
    assert_eq!(c.len(), 4);
    assert_eq!(c, "2000::/4".parse::<Ipv6Cidr>().unwrap());
}

#[test]
fn ipv6_any_clip() {
    let mut c = "2001:db8:1234:5678::/64".parse::<AnyIpCidr>().unwrap();
    c.clip(4);
    assert_eq!(c.len(), 4);
    assert_eq!(c, "2000::/3".parse::<AnyIpCidr>().unwrap());
}

#[test]
fn clip_longer_than_network_changes_nothing() {
    let mut c = "192.168.0.0/16".parse::<Ipv4Cidr>().unwrap();
    c.clip(20);
    assert_eq!(c, "192.168.0.0/16".parse::<Ipv4Cidr>().unwrap());
    c.clip(300);
    assert_eq!(c, "192.168.0.0/16".parse::<Ipv4Cidr>().unwrap());
}

#[test]
fn clip_of_host_clears_host_bits() {
    let mut i = "10.1.1.1/24".parse::<Ipv4Inet>().unwrap();
    i.clip(28);
    assert_eq!(i, "10.1.1.0/24".parse::<Ipv4Inet>().unwrap());
    i.clip(8);
    assert_eq!(i, "10.0.0.0/8".parse::<Ipv4Inet>().unwrap());
}

#[test]
fn get_set_flip_append() {
    let mut c = "192.168.0.0/16".parse::<Ipv4Cidr>().unwrap();
    assert!(c.get(0));
    assert!(c.get(1));
    assert!(!c.get(2));
    assert!(!c.get(31));
    c.set(2, true);
    assert_eq!(c, "224.168.0.0/16".parse::<Ipv4Cidr>().unwrap());
    c.set(2, true);
    assert_eq!(c, "224.168.0.0/16".parse::<Ipv4Cidr>().unwrap());
    c.set(0, false);
    assert_eq!(c, "96.168.0.0/16".parse::<Ipv4Cidr>().unwrap());
    c.flip(15);
    assert_eq!(c, "96.169.0.0/16".parse::<Ipv4Cidr>().unwrap());
    c.append(true);
    assert_eq!(c, "96.169.128.0/17".parse::<Ipv4Cidr>().unwrap());
    c.append(false);
    assert_eq!(c, "96.169.128.0/18".parse::<Ipv4Cidr>().unwrap());
    assert_eq!(c.len(), 18);
}

#[test]
fn null_and_shared_prefix_len() {
    assert_eq!(Ipv4Cidr::null(), "0.0.0.0/0".parse::<Ipv4Cidr>().unwrap());
    assert_eq!(Ipv6Cidr::null(), "::/0".parse::<Ipv6Cidr>().unwrap());
    let a = "192.168.0.0/16".parse::<Ipv4Cidr>().unwrap();
    let b = "192.169.0.0/16".parse::<Ipv4Cidr>().unwrap();
    let c = "192.168.128.0/17".parse::<Ipv4Cidr>().unwrap();
    assert_eq!(a.shared_prefix_len(&b), 15);
    assert_eq!(a.shared_prefix_len(&c), 16);
    assert_eq!(a.shared_prefix_len(&a), 16);
    let d = "2001:db8::/32".parse::<Ipv6Cidr>().unwrap();
    let e = "2001:db9::/32".parse::<Ipv6Cidr>().unwrap();
    assert_eq!(d.shared_prefix_len(&e), 31);
}

#[test]
fn any_set_first_bit_truncates() {
    let mut c = "192.168.0.0/16".parse::<AnyIpCidr>().unwrap();
    assert_eq!(c.len(), 17);
    assert!(!c.get(0));
    assert!(c.get(1));
    c.set(1, false);
    assert_eq!(c, "64.168.0.0/16".parse::<AnyIpCidr>().unwrap());
    c.set(0, false);
    assert_eq!(c, "0.0.0.0/0".parse::<AnyIpCidr>().unwrap());
    c.set(0, true);
    assert_eq!(c, "::/0".parse::<AnyIpCidr>().unwrap());
    assert!(c.get(0));
    c.flip(0);
    assert_eq!(c, "0.0.0.0/0".parse::<AnyIpCidr>().unwrap());
    c.clip(0);
    assert_eq!(c, AnyIpCidr::Any);
    assert_eq!(c.len(), 0);
    c.append(true);
    assert_eq!(c, "::/0".parse::<AnyIpCidr>().unwrap());
    c.append(true);
    assert_eq!(c, "8000::/1".parse::<AnyIpCidr>().unwrap());
    assert_eq!(AnyIpCidr::null(), AnyIpCidr::Any);
}

#[test]
fn any_shared_prefix_len() {
    let a = "192.168.0.0/16".parse::<AnyIpCidr>().unwrap();
    let b = "192.169.0.0/16".parse::<AnyIpCidr>().unwrap();
    let c = "2001:db8::/32".parse::<AnyIpCidr>().unwrap();
    assert_eq!(a.shared_prefix_len(&b), 16);
    assert_eq!(a.shared_prefix_len(&c), 0);
    assert_eq!(a.shared_prefix_len(&AnyIpCidr::Any), 0);
    assert_eq!(c.shared_prefix_len(&c), 33);
}

#[test]
fn ipv6_get_set_flip_append() {
    let mut c = "2001:db8::/32".parse::<Ipv6Cidr>().unwrap();
    assert!(!c.get(0));
    assert!(c.get(2));
    assert!(c.get(15));
    assert!(!c.get(16));
    assert!(!c.get(127));
    c.set(0, true);
    assert_eq!(c, "a001:db8::/32".parse::<Ipv6Cidr>().unwrap());
    c.set(2, false);
    assert_eq!(c, "8001:db8::/32".parse::<Ipv6Cidr>().unwrap());
    c.flip(31);
    assert_eq!(c, "8001:db9::/32".parse::<Ipv6Cidr>().unwrap());
    c.flip(31);
    assert_eq!(c, "8001:db8::/32".parse::<Ipv6Cidr>().unwrap());
    c.append(true);
    assert_eq!(c, "8001:db8:8000::/33".parse::<Ipv6Cidr>().unwrap());
    c.append(false);
    assert_eq!(c, "8001:db8:8000::/34".parse::<Ipv6Cidr>().unwrap());
    assert_eq!(c.len(), 34);
    c.clip(16);
    assert_eq!(c, "8001::/16".parse::<Ipv6Cidr>().unwrap());
}

#[test]
fn host_get_set_flip_append() {
    let mut i = "10.1.2.3/8".parse::<Ipv4Inet>().unwrap();
    assert!(!i.get(0));
    assert!(i.get(4));
    assert!(i.get(31));
    i.set(0, true);
    assert_eq!(i, "138.1.2.3/8".parse::<Ipv4Inet>().unwrap());
    i.flip(7);
    assert_eq!(i, "139.1.2.3/8".parse::<Ipv4Inet>().unwrap());
    assert_eq!(i.len(), 8);
    let j = "139.1.2.3/16".parse::<Ipv4Inet>().unwrap();
    let k = "139.1.66.3/24".parse::<Ipv4Inet>().unwrap();
    assert_eq!(j.shared_prefix_len(&k), 16);
    assert_eq!(i.shared_prefix_len(&k), 8);
    let mut h = "2001:db8::1/64".parse::<Ipv6Inet>().unwrap();
    assert!(h.get(127));
    assert!(!h.get(126));
    h.set(63, true);
    assert_eq!(h, "2001:db8:0:1::1/64".parse::<Ipv6Inet>().unwrap());
    h.flip(0);
    assert_eq!(h, "a001:db8:0:1::1/64".parse::<Ipv6Inet>().unwrap());
    let g = "a001:db8:0:1::2/64".parse::<Ipv6Inet>().unwrap();
    assert_eq!(h.shared_prefix_len(&g), 64);
}
