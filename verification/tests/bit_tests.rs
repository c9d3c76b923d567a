use cidr::bigendian::BigEndianManipulation;
use cidr::bitstring::iter::FixedBitStringIterator;
use cidr::bitstring::word_string::BitWordString;
use cidr::bitstring::{BitString, FixedBitString};
use cidr::{Ipv4Addr, Ipv6Addr};
use std::cmp::Ordering;

#[test]
fn byte_mask_wraps_at_eight() {
    assert_eq!(u8::elembits(), 8);
    assert_eq!(u8::mask(0), 0x80);
    assert_eq!(u8::mask(1), 0x40);
    assert_eq!(u8::mask(7), 0x01);
    assert_eq!(u8::mask(8), 0x80);
    assert_eq!(u8::mask(13), 0x04);
}

#[test]
fn byte_slice_single_bits() {
    let mut s = [0u8, 0xff, 0x0f];
    assert!(!u8::get(&s, 0));
    assert!(u8::get(&s, 8));
    assert!(!u8::get(&s, 19));
    assert!(u8::get(&s, 20));
    u8::on(&mut s, 3);
    assert_eq!(s, [0x10, 0xff, 0x0f]);
    u8::off(&mut s, 15);
    assert_eq!(s, [0x10, 0xfe, 0x0f]);
    u8::flip(&mut s, 16);
    assert_eq!(s, [0x10, 0xfe, 0x8f]);
    u8::flip(&mut s, 16);
    assert_eq!(s, [0x10, 0xfe, 0x0f]);
    u8::set(&mut s, 0, true);
    u8::set(&mut s, 3, false);
    assert_eq!(s, [0x80, 0xfe, 0x0f]);
}

#[test]
fn byte_slice_tails() {
    let mut s = [0xffu8, 0xff, 0xff];
    u8::zeroesfrom(&mut s, 11);
    assert_eq!(s, [0xff, 0xe0, 0x00]);
    assert!(u8::is_zeroesfrom(&s, 11));
    assert!(!u8::is_zeroesfrom(&s, 10));
    assert!(u8::is_zeroesfrom(&s, 16));
    assert!(u8::is_zeroesfrom(&s, 24));
    assert!(u8::is_zeroesfrom(&s, 99));
    u8::zeroesfrom(&mut s, 24);
    assert_eq!(s, [0xff, 0xe0, 0x00]);
    u8::zeroesfrom(&mut s, 8);
    assert_eq!(s, [0xff, 0x00, 0x00]);

    u8::onesfrom(&mut s, 21);
    assert_eq!(s, [0xff, 0x00, 0x07]);
    assert!(u8::is_onesfrom(&s, 21));
    assert!(!u8::is_onesfrom(&s, 20));
    assert!(u8::is_onesfrom(&s, 24));
    u8::onesfrom(&mut s, 16);
    assert_eq!(s, [0xff, 0x00, 0xff]);
    assert!(u8::is_onesfrom(&s, 16));
    assert!(!u8::is_onesfrom(&s, 15));
    u8::onesfrom(&mut s, 0);
    assert_eq!(s, [0xff, 0xff, 0xff]);
    assert!(u8::is_onesfrom(&s, 0));
}

#[test]
fn byte_slice_increment() {
    let mut s = [0x12u8, 0x34];
    assert!(!u8::inc(&mut s, 0));
    assert_eq!(s, [0x12, 0x35]);

    let mut s = [0x12u8, 0xff];
    assert!(!u8::inc(&mut s, 4));
    assert_eq!(s, [0x13, 0x00]);

    let mut s = [0x12u8, 0xff];
    assert!(u8::inc(&mut s, 8));
    assert_eq!(s, [0x12, 0x00]);

    let mut s = [0x1fu8, 0xff];
    assert!(u8::inc(&mut s, 3));
    assert_eq!(s, [0x00, 0x00]);

    let mut s = [0x3fu8, 0xff];
    assert!(u8::inc(&mut s, 3));
    assert_eq!(s, [0x20, 0x00]);

    let mut s = [0xffu8, 0xff];
    assert!(u8::inc(&mut s, 0));
    assert_eq!(s, [0x00, 0x00]);

    let mut s = [0xabu8, 0xcd];
    assert!(u8::inc(&mut s, 16));
    assert_eq!(s, [0xab, 0xcd]);
}

#[test]
fn byte_slice_contains() {
    let a = [192u8, 0, 2, 0];
    let b = [192u8, 0, 2, 255];
    let c = [192u8, 0, 3, 0];
    assert!(u8::contains(&a, 24, &b));
    assert!(!u8::contains(&a, 25, &b));
    assert!(!u8::contains(&a, 24, &c));
    assert!(u8::contains(&a, 23, &c));
    assert!(u8::contains(&a, 0, &[0u8, 0, 0, 0]));
    assert!(!u8::contains(&a, 1, &[0u8, 0, 0, 0]));
    assert!(u8::contains(&a, 32, &a));
}

#[test]
fn address_as_fixed_bit_string() {
    let mut a = Ipv4Addr::new(192, 0, 2, 0);
    assert!(a.get(0));
    assert!(a.get(1));
    assert!(!a.get(2));
    assert!(a.get(22));
    assert!(!a.get(31));
    a.on(31);
    assert_eq!(a, Ipv4Addr::new(192, 0, 2, 1));
    a.off(0);
    assert_eq!(a, Ipv4Addr::new(64, 0, 2, 1));
    a.flip(8);
    assert_eq!(a, Ipv4Addr::new(64, 128, 2, 1));
    a.set(8, false);
    a.set(0, true);
    assert_eq!(a, Ipv4Addr::new(192, 0, 2, 1));
    a.onesfrom(24);
    assert_eq!(a, Ipv4Addr::new(192, 0, 2, 255));
    assert!(a.is_onesfrom(24));
    assert!(!a.is_onesfrom(22));
    a.zeroesfrom(20);
    assert_eq!(a, Ipv4Addr::new(192, 0, 0, 0));
    assert!(a.is_zeroesfrom(2));
    assert!(!a.is_zeroesfrom(1));
    assert!(a.is_zeroesfrom(32));
    assert_eq!(<Ipv4Addr as FixedBitString>::all_zeroes(), Ipv4Addr::new(0, 0, 0, 0));
    assert_eq!(<Ipv4Addr as FixedBitString>::all_ones(), Ipv4Addr::new(255, 255, 255, 255));
    assert!(FixedBitString::contains(&a, 8, &Ipv4Addr::new(192, 168, 1, 1)));
    assert!(!FixedBitString::contains(&a, 9, &Ipv4Addr::new(192, 168, 1, 1)));

    let mut b = Ipv6Addr::new(0x2001, 0xdb8, 0, 0, 0, 0, 0, 0);
    assert!(b.get(2));
    assert!(!b.get(0));
    b.on(127);
    assert_eq!(b, Ipv6Addr::new(0x2001, 0xdb8, 0, 0, 0, 0, 0, 1));
    b.onesfrom(112);
    assert_eq!(b, Ipv6Addr::new(0x2001, 0xdb8, 0, 0, 0, 0, 0, 0xffff));
    b.zeroesfrom(16);
    assert_eq!(b, Ipv6Addr::new(0x2001, 0, 0, 0, 0, 0, 0, 0));
    assert_eq!(
        <Ipv6Addr as FixedBitString>::all_ones(),
        Ipv6Addr::new(0xffff, 0xffff, 0xffff, 0xffff, 0xffff, 0xffff, 0xffff, 0xffff)
    );
}

#[test]
fn address_increment_keeps_the_prefix() {
    let mut a = Ipv4Addr::new(192, 0, 2, 254);
    assert!(!a.inc(24));
    assert_eq!(a, Ipv4Addr::new(192, 0, 2, 255));
    assert!(a.inc(24));
    assert_eq!(a, Ipv4Addr::new(192, 0, 2, 0));
    let mut a = Ipv4Addr::new(192, 0, 2, 255);
    assert!(!a.inc(16));
    assert_eq!(a, Ipv4Addr::new(192, 0, 3, 0));
    let mut a = Ipv4Addr::new(255, 255, 255, 255);
    assert!(a.inc(0));
    assert_eq!(a, Ipv4Addr::new(0, 0, 0, 0));
    let mut a = Ipv4Addr::new(10, 1, 2, 3);
    assert!(a.inc(32));
    assert_eq!(a, Ipv4Addr::new(10, 1, 2, 3));
    let mut b = Ipv6Addr::new(0x2001, 0xdb8, 0, 0, 0, 0, 0, 0xffff);
    assert!(!b.inc(64));
    assert_eq!(b, Ipv6Addr::new(0x2001, 0xdb8, 0, 0, 0, 0, 1, 0));
    let mut b = Ipv6Addr::new(0x2001, 0xdb8, 0, 0, 0, 0, 0, 0xffff);
    assert!(b.inc(112));
    assert_eq!(b, Ipv6Addr::new(0x2001, 0xdb8, 0, 0, 0, 0, 0, 0));
}

#[test]
fn fixed_bit_string_iterator_stops_at_overflow() {
    let mut it = FixedBitStringIterator::new(Ipv4Addr::new(192, 0, 2, 252), 30);
    assert_eq!(it.next(), Some(Ipv4Addr::new(192, 0, 2, 252)));
    assert_eq!(it.next(), Some(Ipv4Addr::new(192, 0, 2, 253)));
    assert_eq!(it.next(), Some(Ipv4Addr::new(192, 0, 2, 254)));
    assert_eq!(it.next(), Some(Ipv4Addr::new(192, 0, 2, 255)));
    assert_eq!(it.next(), None);
    assert_eq!(it.next(), None);

    let mut it = Ipv4Addr::new(10, 0, 0, 7).iter(32);
    assert_eq!(it.next(), Some(Ipv4Addr::new(10, 0, 0, 7)));
    assert_eq!(it.next(), None);

    let mut it = Ipv4Addr::new(10, 0, 0, 6).iter(29);
    assert_eq!(it.next(), Some(Ipv4Addr::new(10, 0, 0, 6)));
    assert_eq!(it.next(), Some(Ipv4Addr::new(10, 0, 0, 7)));
    assert_eq!(it.next(), None);
}

fn word(a: u8, b: u8, c: u8, d: u8, len: usize) -> BitWordString<Ipv4Addr> {
    BitWordString { bitwords: Ipv4Addr::new(a, b, c, d), len }
}

#[test]
fn word_string_edits() {
    let mut w = word(192, 0, 2, 0, 24);
    assert_eq!(w.len(), 24);
    assert!(w.get(0));
    assert!(!w.get(23));
    assert!(w.contains(&Ipv4Addr::new(192, 0, 2, 77)));
    assert!(!w.contains(&Ipv4Addr::new(192, 0, 3, 77)));
    w.set(23, true);
    assert_eq!(w.bitwords, Ipv4Addr::new(192, 0, 3, 0));
    w.flip(0);
    assert_eq!(w.bitwords, Ipv4Addr::new(64, 0, 3, 0));
    w.clip(30);
    assert_eq!(w.len(), 24);
    w.clip(16);
    assert_eq!(w.len(), 16);
    assert_eq!(w.bitwords, Ipv4Addr::new(64, 0, 0, 0));
    w.append(true);
    assert_eq!(w.len(), 17);
    assert_eq!(w.bitwords, Ipv4Addr::new(64, 0, 128, 0));
    w.append(false);
    assert_eq!(w.len(), 18);
    assert_eq!(w.bitwords, Ipv4Addr::new(64, 0, 128, 0));
    let n = BitWordString::<Ipv4Addr>::null();
    assert_eq!(n.len(), 0);
    assert_eq!(n.bitwords, Ipv4Addr::new(0, 0, 0, 0));
}

#[test]
fn word_string_orders() {
    let a = word(192, 0, 2, 0, 24);
    let b = word(192, 0, 2, 128, 25);
    let c = word(192, 0, 3, 0, 24);
    assert_eq!(a.shared_prefix_len(&b), 24);
    assert_eq!(a.shared_prefix_len(&c), 23);
    assert_eq!(a.shared_prefix_len(&a), 24);
    let p = a.shared_prefix(&c);
    assert_eq!(p.len(), 23);
    assert_eq!(p.bitwords, Ipv4Addr::new(192, 0, 2, 0));

    assert_eq!(a.bitstring_subset_cmp(&a), Some(Ordering::Equal));
    assert_eq!(a.bitstring_subset_cmp(&b), Some(Ordering::Greater));
    assert_eq!(b.bitstring_subset_cmp(&a), Some(Ordering::Less));
    assert_eq!(a.bitstring_subset_cmp(&c), None);

    assert_eq!(a.bitstring_lexicographic_cmp(&a), Ordering::Equal);
    assert_eq!(a.bitstring_lexicographic_cmp(&b), Ordering::Less);
    assert_eq!(b.bitstring_lexicographic_cmp(&a), Ordering::Greater);
    assert_eq!(a.bitstring_lexicographic_cmp(&c), Ordering::Less);
    assert_eq!(c.bitstring_lexicographic_cmp(&b), Ordering::Greater);
}

#[test]
fn word_string_copy_and_first_bit_of_any() {
    let a = word(192, 0, 2, 0, 24);
    let b = a.clone();
    assert_eq!(b.len, 24);
    assert_eq!(b.bitwords, Ipv4Addr::new(192, 0, 2, 0));
    let mut c = "192.0.2.0/24".parse::<cidr::AnyIpCidr>().unwrap();
    c.set(0, true);
    assert_eq!(c, "::/0".parse::<cidr::AnyIpCidr>().unwrap());
    assert_eq!(c.len(), 1);
    c.flip(0);
    assert_eq!(c, "0.0.0.0/0".parse::<cidr::AnyIpCidr>().unwrap());
    let mut d = cidr::AnyIpCidr::Any;
    d.append(true);
    assert_eq!(d, "::/0".parse::<cidr::AnyIpCidr>().unwrap());
}
