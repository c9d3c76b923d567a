use cidr::internal_traits::{Ipv4AddrTools, Ipv6AddrTools};
use cidr::{Ipv4Addr, Ipv6Addr};

#[test]
fn host_mask_v4() {
    assert_eq!(Ipv4AddrTools::native_host_mask(0), u32::MAX);
    assert_eq!(Ipv4AddrTools::native_host_mask(24), 0xff);
    assert_eq!(Ipv4AddrTools::native_host_mask(32), 0);
    assert_eq!(Ipv4AddrTools::native_host_mask(200), 0);
}

#[test]
fn host_mask_v6() {
    assert_eq!(Ipv6AddrTools::native_host_mask(0), u128::MAX);
    assert_eq!(Ipv6AddrTools::native_host_mask(64), u64::MAX as u128);
    assert_eq!(Ipv6AddrTools::native_host_mask(128), 0);
    assert_eq!(Ipv6AddrTools::native_host_mask(129), 0);
}

#[test]
fn next_at_end_of_subnet_v4() {
    let last = Ipv4Addr::new(192, 0, 2, 255);
    let (addr, overflow) = Ipv4AddrTools::_overflowing_next(last, 24);
    assert!(overflow);
    assert_eq!(addr, Ipv4Addr::new(192, 0, 2, 0));
}

#[test]
fn next_at_end_of_subnet_v6() {
    let last = Ipv6Addr::new(0x2001, 0xdb8, 0, 0, 0xffff, 0xffff, 0xffff, 0xffff);
    let (addr, overflow) = Ipv6AddrTools::_overflowing_next(last, 64);
    assert!(overflow);
    assert_eq!(addr, Ipv6Addr::new(0x2001, 0xdb8, 0, 0, 0, 0, 0, 0));
}
