use cidr::local_addr_parser::ParseableAddress;
use cidr::errors::{NetworkParseError, ParseIntError};
use cidr::parsers::{
    parse_any_cidr, parse_any_cidr_ignore_hostbits, parse_cidr, parse_cidr_ignore_hostbits,
    parse_inet, parse_loose_ip, parse_short_ip_cidr, parse_short_ipv4_cidr,
};
use cidr::{AnyIpCidr, IpAddr, IpCidr, Ipv4Addr, Ipv4Cidr, Ipv4Inet};

fn test_addr(s: &str, a: Ipv4Addr) {
    assert_eq!(
        Ipv4Addr::address_from_str(s).unwrap(),
        a,
        "{} didn't match {:?} (through Ipv4Addr)",
        s,
        a
    );

    assert_eq!(
        IpAddr::address_from_str(s).unwrap(),
        IpAddr::V4(a),
        "{} didn't match {:?} (through IpAddr)",
        s,
        a
    );
}

#[test]
fn local_addr_parser_invalid_short() {
    assert!(IpAddr::address_from_str("").is_err());
    assert!(Ipv4Addr::address_from_str("").is_err());
}

#[test]
fn local_addr_parser_short_10() {
    test_addr("10", Ipv4Addr::new(10, 0, 0, 0));
    test_addr("10.0", Ipv4Addr::new(10, 0, 0, 0));
    test_addr("10.0.0", Ipv4Addr::new(10, 0, 0, 0));
    test_addr("10.0.0.0", Ipv4Addr::new(10, 0, 0, 0));
}

#[test]
fn local_addr_parser_short_192_168() {
    test_addr("192.168", Ipv4Addr::new(192, 168, 0, 0));
    test_addr("192.168.0", Ipv4Addr::new(192, 168, 0, 0));
    test_addr("192.168.0.0", Ipv4Addr::new(192, 168, 0, 0));
}

#[test]
fn local_addr_parser_short_192_0_2() {
    test_addr("192.0.2", Ipv4Addr::new(192, 0, 2, 0));
    test_addr("192.0.2.0", Ipv4Addr::new(192, 0, 2, 0));
}

fn test(s: &str, expect: &str) {
    // check against standard parser of canonical form
    let expect_v4 = expect.parse::<Ipv4Cidr>().unwrap();
    let expect = expect.parse::<IpCidr>().unwrap();

    assert_eq!(parse_short_ipv4_cidr(s).unwrap(), expect_v4);

    assert_eq!(parse_short_ip_cidr(s).unwrap(), expect);
}

#[test]
fn invalid_short() {
    assert!(parse_short_ipv4_cidr("").is_err());
    assert!(parse_short_ip_cidr("").is_err());
}

#[test]
fn short_10() {
    test("10.0.0.0/8", "10.0.0.0/8");
    test("10", "10.0.0.0/8");
    test("10.42.0.0/16", "10.42.0.0/16");
    test("10.42", "10.42.0.0/16");
    test("10.0.42.0/24", "10.0.42.0/24");
    test("10.0.42", "10.0.42.0/24");
    test("10.0.0.42/32", "10.0.0.42/32");
    test("10.0.0.42", "10.0.0.42/32");
}

#[test]
fn short_192_168() {
    test("192.168.0.0/16", "192.168.0.0/16");
    test("192.168", "192.168.0.0/16");
    test("192.168.42.0/24", "192.168.42.0/24");
    test("192.168.42", "192.168.42.0/24");
    test("192.168.0.42/32", "192.168.0.42/32");
    test("192.168.0.42", "192.168.0.42/32");
}

#[test]
fn short_192_0_2() {
    test("192.0.2.0/24", "192.0.2.0/24");
    test("192.0.2", "192.0.2.0/24");
    test("192.0.2.42/32", "192.0.2.42/32");
    test("192.0.2.42", "192.0.2.42/32");
}

fn run(s: &str, expect: Ipv4Addr) {
    assert_eq!(cidr::parsers::inet_addr(s), Some(expect));
    assert_eq!(cidr::parsers::parse_loose_ipv4(s), Ok(expect));
    assert_eq!(cidr::parsers::parse_loose_ip(s), Ok(IpAddr::V4(expect)));
}

#[test]
fn test_loose_ipv4() {
    run("10.0.1.2", Ipv4Addr::from([10, 0, 1, 2]));
    run("10.0.258", Ipv4Addr::from([10, 0, 1, 2]));
    run("0xA000102", Ipv4Addr::from([10, 0, 1, 2]));
    run("0XA000102", Ipv4Addr::from([10, 0, 1, 2]));
    run("012.0x102", Ipv4Addr::from([10, 0, 1, 2]));

    run("127.0.0.1", Ipv4Addr::from([127, 0, 0, 1]));
    run("127.0.1", Ipv4Addr::from([127, 0, 0, 1]));
    run("127.1", Ipv4Addr::from([127, 0, 0, 1]));

    run("0", Ipv4Addr::from([0, 0, 0, 0]));
    run("1", Ipv4Addr::from([0, 0, 0, 1]));
}

#[test]
fn loose_ipv4_rejects() {
    assert_eq!(cidr::parsers::inet_addr(""), None);
    assert_eq!(cidr::parsers::inet_addr("1.2.3.4.5"), None);
    assert_eq!(cidr::parsers::inet_addr("256.1"), None);
    assert_eq!(cidr::parsers::inet_addr("1.0x1000000"), None);
    assert_eq!(cidr::parsers::inet_addr("1.2.65536"), None);
    assert_eq!(cidr::parsers::inet_addr("1.2.3.256"), None);
    assert_eq!(cidr::parsers::inet_addr("0x+1"), None);
    assert_eq!(cidr::parsers::inet_addr("08"), None);
    assert_eq!(cidr::parsers::inet_addr("0x"), None);
    assert_eq!(cidr::parsers::inet_addr("4294967296"), None);
    assert_eq!(cidr::parsers::inet_addr("4294967295"), Some(Ipv4Addr::new(255, 255, 255, 255)));
    assert_eq!(cidr::parsers::inet_addr("+5"), Some(Ipv4Addr::new(0, 0, 0, 5)));
    assert_eq!(
        cidr::parsers::parse_loose_ipv4("x"),
        Err(cidr::errors::AddrParseError::Ipv4)
    );
    assert_eq!(cidr::parsers::parse_loose_ip("x"), Err(cidr::errors::AddrParseError::Ip));
    assert_eq!(
        cidr::parsers::parse_loose_ip("::1"),
        Ok(IpAddr::V6(cidr::Ipv6Addr::new(0, 0, 0, 0, 0, 0, 0, 1)))
    );
}

#[test]
fn strict_ipv4_texts() {
    let ok = |s: &str| s.parse::<Ipv4Addr>();
    assert_eq!(ok("0.0.0.0"), Ok(Ipv4Addr::new(0, 0, 0, 0)));
    assert_eq!(ok("255.255.255.255"), Ok(Ipv4Addr::new(255, 255, 255, 255)));
    for bad in [
        "", "1", "1.2.3", "1.2.3.4.5", "01.2.3.4", "1.2.3.04", "256.1.1.1", "1.2.3.4 ", " 1.2.3.4",
        "1..3.4", "1.2.3.", ".1.2.3", "+1.2.3.4", "1.2.3.4/", "a.b.c.d", "1.2.3.1000", "0x1.2.3.4",
    ] {
        assert_eq!(ok(bad), Err(cidr::errors::AddrParseError::Ipv4), "{:?}", bad);
    }
}

#[test]
fn strict_ipv6_texts() {
    let p = |s: &str| s.parse::<cidr::Ipv6Addr>().ok();
    let a = cidr::Ipv6Addr::new;
    assert_eq!(p("::"), Some(a(0, 0, 0, 0, 0, 0, 0, 0)));
    assert_eq!(p("::1"), Some(a(0, 0, 0, 0, 0, 0, 0, 1)));
    assert_eq!(p("1::"), Some(a(1, 0, 0, 0, 0, 0, 0, 0)));
    assert_eq!(p("1:2:3:4:5:6:7:8"), Some(a(1, 2, 3, 4, 5, 6, 7, 8)));
    assert_eq!(p("1:2:3:4:5:6:7::"), Some(a(1, 2, 3, 4, 5, 6, 7, 0)));
    assert_eq!(p("::2:3:4:5:6:7:8"), Some(a(0, 2, 3, 4, 5, 6, 7, 8)));
    assert_eq!(p("2001:DB8::abCD"), Some(a(0x2001, 0xdb8, 0, 0, 0, 0, 0, 0xabcd)));
    assert_eq!(p("::ffff:1.2.3.4"), Some(a(0, 0, 0, 0, 0, 0xffff, 0x102, 0x304)));
    assert_eq!(p("::1.2.3.4"), Some(a(0, 0, 0, 0, 0, 0, 0x102, 0x304)));
    assert_eq!(p("1:2:3:4:5:6:1.2.3.4"), Some(a(1, 2, 3, 4, 5, 6, 0x102, 0x304)));
    assert_eq!(p("0001:0002::"), Some(a(1, 2, 0, 0, 0, 0, 0, 0)));
    for bad in [
        "", ":", ":::", "1", "1:2:3:4:5:6:7", "1:2:3:4:5:6:7:8:9", "1:2:3:4:5:6:7:8::",
        "::1:2:3:4:5:6:7:8", "1::2::3", "12345::", "g::", "1:2:3:4:5:6:7:1.2.3.4",
        "1.2.3.4::", "::1.2.3.4:5", "1:2:3:4:5:6::1.2.3.4", "::1.2.3", "::01.2.3.4", ":1::",
        "1:::2", "::1%eth0", " ::1", "::1 ", "+1::", "::-1",
    ] {
        assert_eq!(p(bad), None, "{:?}", bad);
    }
}

#[test]
fn network_length_texts() {
    let p = |s: &str| s.parse::<Ipv4Cidr>();
    assert_eq!(p("10.0.0.0/+8"), Ok(Ipv4Cidr::new(Ipv4Addr::new(10, 0, 0, 0), 8).unwrap()));
    assert_eq!(p("10.0.0.0/008"), Ok(Ipv4Cidr::new(Ipv4Addr::new(10, 0, 0, 0), 8).unwrap()));
    assert_eq!(
        p("10.0.0.0/"),
        Err(NetworkParseError::NetworkLengthParseError(ParseIntError::Empty))
    );
    assert_eq!(
        p("10.0.0.0/x"),
        Err(NetworkParseError::NetworkLengthParseError(ParseIntError::InvalidDigit))
    );
    assert_eq!(
        p("10.0.0.0/+"),
        Err(NetworkParseError::NetworkLengthParseError(ParseIntError::InvalidDigit))
    );
    assert_eq!(
        p("10.0.0.0/256"),
        Err(NetworkParseError::NetworkLengthParseError(ParseIntError::PosOverflow))
    );
    assert_eq!(
        p("10.0.0.0/999x"),
        Err(NetworkParseError::NetworkLengthParseError(ParseIntError::PosOverflow))
    );
    assert_eq!(
        p("10.0.0.0/25x"),
        Err(NetworkParseError::NetworkLengthParseError(ParseIntError::InvalidDigit))
    );
    assert_eq!(
        p("x/8"),
        Err(NetworkParseError::AddrParseError(cidr::errors::AddrParseError::Ipv4))
    );
    assert_eq!(
        p("1/2/8"),
        Err(NetworkParseError::AddrParseError(cidr::errors::AddrParseError::Ipv4))
    );
    assert_eq!(
        p("x/8").unwrap_err().to_string(),
        "couldn't parse address in network: invalid IPv4 address syntax"
    );
    assert_eq!(
        p("10.0.0.0/x").unwrap_err().to_string(),
        "couldn't parse length in network: invalid digit found in string"
    );
}

#[test]
fn ignore_hostbits() {
    let strict = |s: &str| s.parse::<Ipv4Addr>();
    assert_eq!(
        parse_cidr_ignore_hostbits::<Ipv4Cidr, _>("10.1.1.1/24", strict),
        Ok(Ipv4Cidr::new(Ipv4Addr::new(10, 1, 1, 0), 24).unwrap())
    );
    assert_eq!(
        parse_cidr::<Ipv4Cidr, _>("10.1.1.1/24", strict),
        Err(cidr::errors::NetworkParseError::InvalidHostPart)
    );
    assert_eq!(
        parse_inet::<Ipv4Inet, _>("10.1.1.1/24", strict),
        Ok(Ipv4Inet::new(Ipv4Addr::new(10, 1, 1, 1), 24).unwrap())
    );
    assert_eq!(
        parse_inet::<Ipv4Inet, _>("10.1.1.1/24", strict).unwrap().network(),
        Ipv4Cidr::new(Ipv4Addr::new(10, 1, 1, 0), 24).unwrap()
    );
    assert_eq!(parse_any_cidr("any", parse_loose_ip), Ok(AnyIpCidr::Any));
    assert_eq!(
        parse_any_cidr_ignore_hostbits("127.1/8", parse_loose_ip),
        Ok(AnyIpCidr::V4(Ipv4Cidr::new(Ipv4Addr::new(127, 0, 0, 0), 8).unwrap()))
    );
    assert_eq!(
        parse_any_cidr_ignore_hostbits("127.1/33", parse_loose_ip),
        Err(cidr::errors::NetworkParseError::NetworkLengthTooLongError(
            cidr::errors::NetworkLengthTooLongError::new(33, cidr::Family::Ipv4)
        ))
    );
    assert_eq!(
        cidr::parsers::parse_short_any_ip_cidr("any"),
        Ok(AnyIpCidr::Any)
    );
    assert_eq!(
        cidr::parsers::parse_short_any_ip_cidr("10.42"),
        Ok(AnyIpCidr::V4(Ipv4Cidr::new(Ipv4Addr::new(10, 42, 0, 0), 16).unwrap()))
    );
}
