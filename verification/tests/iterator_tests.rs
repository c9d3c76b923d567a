use cidr::internal_traits::PrivInetPair;
use cidr::num::NumberOfAddresses;
use cidr::{
    Address, InetAddressIterator, InetIterator, IpAddr, IpCidr, IpInetPair, Ipv4Addr, Ipv4Cidr,
    Ipv4Inet, Ipv4InetPair, Ipv6Addr, Ipv6Cidr, Ipv6InetPair,
};

fn forward<A: Address>(mut it: InetAddressIterator<A>) -> Vec<A> {
    let mut v = Vec::new();
    while let Some(a) = it.next() {
        v.push(a);
    }
    assert!(it.next().is_none());
    assert!(it.next_back().is_none());
    v
}

fn backward<A: Address>(mut it: InetAddressIterator<A>) -> Vec<A> {
    let mut v = Vec::new();
    while let Some(a) = it.next_back() {
        v.push(a);
    }
    assert!(it.next_back().is_none());
    assert!(it.next().is_none());
    v
}

fn test_v4(s: &'static str, l: &[Ipv4Addr]) {
    assert_eq!(forward(s.parse::<Ipv4Cidr>().unwrap().iter().addresses()), l);

    let either: Vec<IpAddr> = l.iter().map(|e| IpAddr::V4(*e)).collect();
    assert_eq!(forward(s.parse::<IpCidr>().unwrap().iter().addresses()), either);

    let mut reversed: Vec<Ipv4Addr> = l.to_vec();
    reversed.reverse();
    assert_eq!(backward(s.parse::<Ipv4Cidr>().unwrap().iter().addresses()), reversed);

    let mut either_reversed = either.clone();
    either_reversed.reverse();
    assert_eq!(backward(s.parse::<IpCidr>().unwrap().iter().addresses()), either_reversed);
}

fn test_v6(s: &'static str, l: &[Ipv6Addr]) {
    assert_eq!(forward(s.parse::<Ipv6Cidr>().unwrap().iter().addresses()), l);

    let either: Vec<IpAddr> = l.iter().map(|e| IpAddr::V6(*e)).collect();
    assert_eq!(forward(s.parse::<IpCidr>().unwrap().iter().addresses()), either);

    let mut reversed: Vec<Ipv6Addr> = l.to_vec();
    reversed.reverse();
    assert_eq!(backward(s.parse::<Ipv6Cidr>().unwrap().iter().addresses()), reversed);

    let mut either_reversed = either.clone();
    either_reversed.reverse();
    assert_eq!(backward(s.parse::<IpCidr>().unwrap().iter().addresses()), either_reversed);
}

#[test]
fn range_v4_28bit() {
    test_v4(
        "192.168.4.48/28",
        &[
            Ipv4Addr::new(192, 168, 4, 48),
            Ipv4Addr::new(192, 168, 4, 49),
            Ipv4Addr::new(192, 168, 4, 50),
            Ipv4Addr::new(192, 168, 4, 51),
            Ipv4Addr::new(192, 168, 4, 52),
            Ipv4Addr::new(192, 168, 4, 53),
            Ipv4Addr::new(192, 168, 4, 54),
            Ipv4Addr::new(192, 168, 4, 55),
            Ipv4Addr::new(192, 168, 4, 56),
            Ipv4Addr::new(192, 168, 4, 57),
            Ipv4Addr::new(192, 168, 4, 58),
            Ipv4Addr::new(192, 168, 4, 59),
            Ipv4Addr::new(192, 168, 4, 60),
            Ipv4Addr::new(192, 168, 4, 61),
            Ipv4Addr::new(192, 168, 4, 62),
            Ipv4Addr::new(192, 168, 4, 63),
        ],
    );
}

#[test]
fn range_v6_28bit() {
    test_v6(
        "::192.168.4.48/124",
        &[
            Ipv6Addr::new(0, 0, 0, 0, 0, 0, 192 * 256 + 168, 4 * 256 + 48),
            Ipv6Addr::new(0, 0, 0, 0, 0, 0, 192 * 256 + 168, 4 * 256 + 49),
            Ipv6Addr::new(0, 0, 0, 0, 0, 0, 192 * 256 + 168, 4 * 256 + 50),
            Ipv6Addr::new(0, 0, 0, 0, 0, 0, 192 * 256 + 168, 4 * 256 + 51),
            Ipv6Addr::new(0, 0, 0, 0, 0, 0, 192 * 256 + 168, 4 * 256 + 52),
            Ipv6Addr::new(0, 0, 0, 0, 0, 0, 192 * 256 + 168, 4 * 256 + 53),
            Ipv6Addr::new(0, 0, 0, 0, 0, 0, 192 * 256 + 168, 4 * 256 + 54),
            Ipv6Addr::new(0, 0, 0, 0, 0, 0, 192 * 256 + 168, 4 * 256 + 55),
            Ipv6Addr::new(0, 0, 0, 0, 0, 0, 192 * 256 + 168, 4 * 256 + 56),
            Ipv6Addr::new(0, 0, 0, 0, 0, 0, 192 * 256 + 168, 4 * 256 + 57),
            Ipv6Addr::new(0, 0, 0, 0, 0, 0, 192 * 256 + 168, 4 * 256 + 58),
            Ipv6Addr::new(0, 0, 0, 0, 0, 0, 192 * 256 + 168, 4 * 256 + 59),
            Ipv6Addr::new(0, 0, 0, 0, 0, 0, 192 * 256 + 168, 4 * 256 + 60),
            Ipv6Addr::new(0, 0, 0, 0, 0, 0, 192 * 256 + 168, 4 * 256 + 61),
            Ipv6Addr::new(0, 0, 0, 0, 0, 0, 192 * 256 + 168, 4 * 256 + 62),
            Ipv6Addr::new(0, 0, 0, 0, 0, 0, 192 * 256 + 168, 4 * 256 + 63),
        ],
    );
}

#[test]
fn v4_ref_into_iter() {
    let cidr = Ipv4Cidr::new(Ipv4Addr::new(1, 2, 3, 0), 30).unwrap();
    assert_eq!(
        forward(cidr.iter().addresses()),
        [
            Ipv4Addr::new(1, 2, 3, 0),
            Ipv4Addr::new(1, 2, 3, 1),
            Ipv4Addr::new(1, 2, 3, 2),
            Ipv4Addr::new(1, 2, 3, 3),
        ]
    );
}

#[test]
fn v4_owned_into_iter() {
    let cidr = Ipv4Cidr::new(Ipv4Addr::new(1, 2, 3, 0), 30).unwrap();
    assert_eq!(
        forward(cidr._range_pair().iter().addresses()),
        [
            Ipv4Addr::new(1, 2, 3, 0),
            Ipv4Addr::new(1, 2, 3, 1),
            Ipv4Addr::new(1, 2, 3, 2),
            Ipv4Addr::new(1, 2, 3, 3),
        ]
    );
}

#[test]
fn count_of_28bit_network_is_16() {
    let cidr = Ipv4Cidr::new(Ipv4Addr::new(192, 0, 2, 48), 28).unwrap();
    assert_eq!(cidr.iter().count(), 16);
    assert_eq!(cidr.iter().size_hint(), (16, Some(16)));
    assert_eq!(cidr.iter().addresses().count(), 16);
    let mut it: InetIterator<Ipv4Addr> = cidr.iter();
    assert_eq!(it.next(), Some(Ipv4Inet::new(Ipv4Addr::new(192, 0, 2, 48), 28).unwrap()));
    assert_eq!(it.next_back(), Some(Ipv4Inet::new(Ipv4Addr::new(192, 0, 2, 63), 28).unwrap()));
    assert_eq!(it.count(), 14);
}

#[test]
fn exhausted_iterator_stays_exhausted() {
    let cidr = Ipv4Cidr::new_host(Ipv4Addr::new(192, 0, 2, 48));
    let mut it = cidr.iter();
    assert_eq!(it.size_hint(), (1, Some(1)));
    assert!(it.next().is_some());
    assert_eq!(it.size_hint(), (0, Some(0)));
    for _ in 0..5 {
        assert!(it.next().is_none());
        assert!(it.next_back().is_none());
    }
    assert_eq!(it.count(), 0);
}

#[test]
fn size_hint_of_the_whole_ipv6_space() {
    let all = "::/0".parse::<Ipv6Cidr>().unwrap();
    assert_eq!(all.iter().size_hint(), (0, None));
    let half = "::/1".parse::<Ipv6Cidr>().unwrap();
    assert_eq!(half.iter().size_hint(), (usize::MAX, None));
    let mut it = all.iter();
    assert_eq!(it.next().unwrap().address(), Ipv6Addr::new(0, 0, 0, 0, 0, 0, 0, 0));
    assert_eq!(
        it.next_back().unwrap().address(),
        Ipv6Addr::new(0xffff, 0xffff, 0xffff, 0xffff, 0xffff, 0xffff, 0xffff, 0xffff)
    );
    assert_eq!(it.size_hint(), (usize::MAX, None));
}

#[test]
fn pair_covers_the_whole_ipv6_space() {
    let first = Ipv6Addr::new(0, 0, 0, 0, 0, 0, 0, 0);
    let last = Ipv6Addr::new(0xffff, 0xffff, 0xffff, 0xffff, 0xffff, 0xffff, 0xffff, 0xffff);
    let pair = Ipv6InetPair::new_from_addresses(first, last, 0).unwrap();
    assert_eq!(pair._covered_addresses(), NumberOfAddresses::MaxIpv6Addresses);
    assert_eq!(
        pair._covered_addresses().to_string(),
        "340282366920938463463374607431768211456"
    );
    let either = IpInetPair::V6(pair);
    assert_eq!(either._covered_addresses(), NumberOfAddresses::MaxIpv6Addresses);
    let small = Ipv4InetPair::new_from_addresses(
        Ipv4Addr::new(10, 0, 0, 1),
        Ipv4Addr::new(10, 0, 0, 5),
        24,
    )
    .unwrap();
    assert_eq!(small._covered_addresses(), NumberOfAddresses::Count(5));
    assert_eq!(small._covered_addresses().to_string(), "5");
}
