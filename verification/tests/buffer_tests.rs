use cidr::display_buffer::{format_cidr_fixed, DisplayBuffer, FmtError, LONGEST_IPV6_CIDR};
use cidr::{IpCidr, IpInet, Ipv6Cidr};

#[test]
fn longest_text_is_47_bytes() {
    let longest = "V6(ffff:ffff:ffff:ffff:ffff:ffff:ffff:ffff/128)";
    assert_eq!(LONGEST_IPV6_CIDR, longest.len());
    assert_eq!(LONGEST_IPV6_CIDR, 47);
    let c: IpCidr = "ffff:ffff:ffff:ffff:ffff:ffff:ffff:ffff/128".parse().unwrap();
    assert_eq!(c.to_debug_string(), longest);
    let buffer = format_cidr_fixed(&c.to_debug_string());
    assert_eq!(buffer.len(), 47);
    assert_eq!(buffer.to_vec(), longest.as_bytes());
}

#[test]
fn buffer_keeps_what_was_written() {
    let mut b = DisplayBuffer::<8>::new();
    assert_eq!(b.len(), 0);
    assert_eq!(b.to_vec(), Vec::<u8>::new());
    assert_eq!(b.write_str("10.0"), Ok(()));
    assert_eq!(b.write_str(""), Ok(()));
    assert_eq!(b.write_str(".0/8"), Ok(()));
    assert_eq!(b.len(), 8);
    assert_eq!(b.to_vec(), b"10.0.0/8");
}

#[test]
fn buffer_refuses_what_does_not_fit() {
    let mut b = DisplayBuffer::<8>::new();
    assert_eq!(b.write_str("192.0.2.0"), Err(FmtError));
    assert_eq!(b.len(), 0);
    assert_eq!(b.write_str("192.0."), Ok(()));
    assert_eq!(b.write_str("2.0"), Err(FmtError));
    assert_eq!(b.to_vec(), b"192.0.");
    assert_eq!(b.write_str("2."), Ok(()));
    assert_eq!(b.write_str("0"), Err(FmtError));
    assert_eq!(b.write_str(""), Ok(()));
    assert_eq!(b.to_vec(), b"192.0.2.");
}

#[test]
fn fixed_text_of_networks_and_hosts() {
    let c: Ipv6Cidr = "2001:DB8:1234:5678::/64".parse().unwrap();
    assert_eq!(format_cidr_fixed(&c.to_string()).to_vec(), b"2001:db8:1234:5678::/64");
    let i: IpInet = "192.0.2.1/24".parse().unwrap();
    assert_eq!(format_cidr_fixed(&i.to_string()).to_vec(), b"192.0.2.1/24");
    assert_eq!(format_cidr_fixed("").to_vec(), b"");
}
