use core::cmp::Ordering;

use cidr::{IpInet, Ipv4Inet, Ipv6Inet};

fn test_v4_order(o: Ordering, a: &'static str, b: &'static str) {
    let r1 = a
        .parse::<Ipv4Inet>()
        .unwrap()
        .cmp(&b.parse::<Ipv4Inet>().unwrap());
    assert!(
        o == r1,
        "Unexpected comparison outcome '{:?}' for {:?} <=> {:?}, expected '{:?}' (through Ipv4Inet)",
        r1,
        a,
        b,
        o
    );

    let r2 = a
        .parse::<IpInet>()
        .unwrap()
        .cmp(&b.parse::<IpInet>().unwrap());
    assert!(
        o == r2,
        "Unexpected comparison outcome '{:?}' for {:?} <=> {:?}, expected '{:?}' (through IpInet)",
        r2,
        a,
        b,
        o
    );

    if o == Ordering::Less {
        // reverse test
        test_v4_order(Ordering::Greater, b, a);
    }
}

fn test_v6_order(o: Ordering, a: &'static str, b: &'static str) {
    let r1 = a
        .parse::<Ipv6Inet>()
        .unwrap()
        .cmp(&b.parse::<Ipv6Inet>().unwrap());
    assert!(
        o == r1,
        "Unexpected comparison outcome '{:?}' for {:?} <=> {:?}, expected '{:?}' (through Ipv6Inet)",
        r1,
        a,
        b,
        o
    );

    let r2 = a
        .parse::<IpInet>()
        .unwrap()
        .cmp(&b.parse::<IpInet>().unwrap());
    assert!(
        o == r2,
        "Unexpected comparison outcome '{:?}' for {:?} <=> {:?}, expected '{:?}' (through IpInet)",
        r2,
        a,
        b,
        o
    );

    if o == Ordering::Less {
        // reverse test
        test_v6_order(Ordering::Greater, b, a);
    }
}

fn test_order(o: Ordering, a: &'static str, b: &'static str) {
    let r = a
        .parse::<IpInet>()
        .unwrap()
        .cmp(&b.parse::<IpInet>().unwrap());
    assert!(
        o == r,
        "Unexpected comparison outcome '{:?}' for {:?} <=> {:?}, expected '{:?}' (through IpCidr)",
        r,
        a,
        b,
        o
    );

    if o == Ordering::Less {
        // reverse test
        test_order(Ordering::Greater, b, a);
    }
}

#[test]
fn tests_order_v4() {
    test_v4_order(Ordering::Equal, "192.0.2.0/24", "192.0.2.0/24");
    test_v4_order(Ordering::Less, "192.0.2.0/24", "192.0.3.0/24");
    test_v4_order(Ordering::Less, "192.0.2.0/24", "192.0.2.0/25");
    test_v4_order(Ordering::Less, "192.0.2.0/24", "192.0.2.128/25");

    test_v4_order(Ordering::Equal, "192.0.2.42/24", "192.0.2.42/24");
    test_v4_order(Ordering::Less, "192.0.2.41/16", "192.0.2.42/24");
    test_v4_order(Ordering::Less, "192.0.2.41/24", "192.0.2.42/24");
    test_v4_order(Ordering::Less, "192.0.2.42/24", "192.0.2.42/25");
    test_v4_order(Ordering::Less, "192.0.2.42/24", "192.0.2.170/25");
}

#[test]
fn tests_order_v6() {
    test_v6_order(
        Ordering::Equal,
        "2001:DB8:1234:5678::/64",
        "2001:DB8:1234:5678::/64",
    );
    test_v6_order(
        Ordering::Less,
        "2001:DB8:1234:5678:1000::/80",
        "2001:DB8:1234:5678:1001::/80",
    );
    test_v6_order(
        Ordering::Less,
        "2001:DB8:1234:5678:1000::/80",
        "2001:DB8:1234:5678:1000::/81",
    );
    test_v6_order(
        Ordering::Less,
        "2001:DB8:1234:5678:1000::/80",
        "2001:DB8:1234:5678:1000:8000::/81",
    );

    test_v6_order(
        Ordering::Equal,
        "2001:DB8:1234:5678::42/64",
        "2001:DB8:1234:5678::42/64",
    );
    test_v6_order(
        Ordering::Less,
        "2001:DB8:1234:5678:1000::41/48",
        "2001:DB8:1234:5678:1000::42/80",
    );
    test_v6_order(
        Ordering::Less,
        "2001:DB8:1234:5678:1000::41/80",
        "2001:DB8:1234:5678:1000::42/80",
    );
    test_v6_order(
        Ordering::Less,
        "2001:DB8:1234:5678:1000::42/80",
        "2001:DB8:1234:5678:1000::42/81",
    );
    test_v6_order(
        Ordering::Less,
        "2001:DB8:1234:5678:1000::42/80",
        "2001:DB8:1234:5678:1000:8000::42/81",
    );
}

#[test]
fn tests_order() {
    test_order(Ordering::Less, "192.0.2.0/24", "2001:DB8:1234:5678::/64");
}
