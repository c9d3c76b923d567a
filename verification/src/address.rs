//! IP addresses as fixed-width unsigned integers in network byte order:
//! the first octet of the textual form is the most significant one.

use vstd::prelude::*;
use crate::cidr::{IpCidr, Ipv4Cidr, Ipv6Cidr};
use crate::inet::{IpInet, Ipv4Inet, Ipv6Inet};
use crate::inet_pair::{IpInetPair, Ipv4InetPair, Ipv6InetPair};
use crate::traits::Address;

verus! {

/// An IPv4 address: a 32-bit unsigned integer.
#[derive(Clone, Copy, PartialEq, Eq, Structural, PartialOrd, Ord, Hash, Debug)]
pub struct Ipv4Addr {
    pub(crate) bits: u32,
}

/// An IPv6 address: a 128-bit unsigned integer.
#[derive(Clone, Copy, PartialEq, Eq, Structural, PartialOrd, Ord, Hash, Debug)]
pub struct Ipv6Addr {
    pub(crate) bits: u128,
}

/// An IP address of either family.
#[derive(Clone, Copy, PartialEq, Eq, Structural, PartialOrd, Ord, Hash, Debug)]
pub enum IpAddr {
    /// An IPv4 address
    V4(Ipv4Addr),
    /// An IPv6 address
    V6(Ipv6Addr),
}

impl View for Ipv4Addr {
    type V = nat;

    /// The address as a number below `2^32`.
    open(crate) spec fn view(&self) -> nat {
        self.bits as nat
    }
}

impl View for Ipv6Addr {
    type V = nat;

    /// The address as a number below `2^128`.
    open(crate) spec fn view(&self) -> nat {
        self.bits as nat
    }
}

/// The number that four octets denote, the first being the most significant.
pub open spec fn octets_value(a: u8, b: u8, c: u8, d: u8) -> nat {
    (a as nat) * 0x100_0000 + (b as nat) * 0x1_0000 + (c as nat) * 0x100 + (d as nat)
}

/// The number that eight 16-bit segments denote, the first being the most
/// significant.
pub open spec fn segments_value(
    a: u16,
    b: u16,
    c: u16,
    d: u16,
    e: u16,
    f: u16,
    g: u16,
    h: u16,
) -> nat {
    (a as nat) * 0x1_0000_0000_0000_0000_0000_0000_0000
        + (b as nat) * 0x1_0000_0000_0000_0000_0000_0000
        + (c as nat) * 0x1_0000_0000_0000_0000_0000
        + (d as nat) * 0x1_0000_0000_0000_0000
        + (e as nat) * 0x1_0000_0000_0000
        + (f as nat) * 0x1_0000_0000
        + (g as nat) * 0x1_0000
        + (h as nat)
}

/// The four octets of an IPv4 address, the most significant first.
pub open spec fn octets_of(v: nat) -> Seq<u8> {
    seq![
        (v / 0x100_0000) as u8,
        ((v / 0x1_0000) % 0x100) as u8,
        ((v / 0x100) % 0x100) as u8,
        (v % 0x100) as u8,
    ]
}

/// The eight segments of an IPv6 address, the most significant first.
pub open spec fn segments_of(v: nat) -> Seq<u16> {
    seq![
        (v / 0x1_0000_0000_0000_0000_0000_0000_0000) as u16,
        ((v / 0x1_0000_0000_0000_0000_0000_0000) % 0x1_0000) as u16,
        ((v / 0x1_0000_0000_0000_0000_0000) % 0x1_0000) as u16,
        ((v / 0x1_0000_0000_0000_0000) % 0x1_0000) as u16,
        ((v / 0x1_0000_0000_0000) % 0x1_0000) as u16,
        ((v / 0x1_0000_0000) % 0x1_0000) as u16,
        ((v / 0x1_0000) % 0x1_0000) as u16,
        (v % 0x1_0000) as u16,
    ]
}

proof fn lemma_u32_octets(a: u8, b: u8, c: u8, d: u8)
    by (bit_vector)
    ensures
        ((a as u32) << 24) | ((b as u32) << 16) | ((c as u32) << 8) | (d as u32) == (a as u32)
            * 0x100_0000 + (b as u32) * 0x1_0000 + (c as u32) * 0x100 + (d as u32),
{
}

proof fn lemma_u32_split(x: u32)
    by (bit_vector)
    ensures
        (x >> 24) == x / 0x100_0000,
        (x >> 24) < 0x100,
        ((x >> 16) & 0xff) == (x / 0x1_0000) % 0x100,
        ((x >> 8) & 0xff) == (x / 0x100) % 0x100,
        (x & 0xff) == x % 0x100,
        x == (x >> 24) * 0x100_0000 + ((x >> 16) & 0xff) * 0x1_0000 + ((x >> 8) & 0xff) * 0x100
            + (x & 0xff),
{
}

proof fn lemma_u128_segments(a: u16, b: u16, c: u16, d: u16, e: u16, f: u16, g: u16, h: u16)
    by (bit_vector)
    ensures
        ((a as u128) << 112) | ((b as u128) << 96) | ((c as u128) << 80) | ((d as u128) << 64) | ((
        e as u128) << 48) | ((f as u128) << 32) | ((g as u128) << 16) | (h as u128) == (a as u128)
            * 0x1_0000_0000_0000_0000_0000_0000_0000 + (b as u128)
            * 0x1_0000_0000_0000_0000_0000_0000 + (c as u128) * 0x1_0000_0000_0000_0000_0000 + (
        d as u128) * 0x1_0000_0000_0000_0000 + (e as u128) * 0x1_0000_0000_0000 + (f as u128)
            * 0x1_0000_0000 + (g as u128) * 0x1_0000 + (h as u128),
{
}

proof fn lemma_u128_split(x: u128)
    by (bit_vector)
    ensures
        (x >> 112) < 0x1_0000,
        x == (x >> 112) * 0x1_0000_0000_0000_0000_0000_0000_0000 + ((x >> 96) & 0xffff)
            * 0x1_0000_0000_0000_0000_0000_0000 + ((x >> 80) & 0xffff)
            * 0x1_0000_0000_0000_0000_0000 + ((x >> 64) & 0xffff) * 0x1_0000_0000_0000_0000 + ((x
            >> 48) & 0xffff) * 0x1_0000_0000_0000 + ((x >> 32) & 0xffff) * 0x1_0000_0000 + ((x
            >> 16) & 0xffff) * 0x1_0000 + (x & 0xffff),
        (x >> 112) == x / 0x1_0000_0000_0000_0000_0000_0000_0000,
        ((x >> 96) & 0xffff) == (x / 0x1_0000_0000_0000_0000_0000_0000) % 0x1_0000,
        ((x >> 80) & 0xffff) == (x / 0x1_0000_0000_0000_0000_0000) % 0x1_0000,
        ((x >> 64) & 0xffff) == (x / 0x1_0000_0000_0000_0000) % 0x1_0000,
        ((x >> 48) & 0xffff) == (x / 0x1_0000_0000_0000) % 0x1_0000,
        ((x >> 32) & 0xffff) == (x / 0x1_0000_0000) % 0x1_0000,
        ((x >> 16) & 0xffff) == (x / 0x1_0000) % 0x1_0000,
        (x & 0xffff) == x % 0x1_0000,
        ((x >> 96) & 0xffff) < 0x1_0000,
        ((x >> 80) & 0xffff) < 0x1_0000,
        ((x >> 64) & 0xffff) < 0x1_0000,
        ((x >> 48) & 0xffff) < 0x1_0000,
        ((x >> 32) & 0xffff) < 0x1_0000,
        ((x >> 16) & 0xffff) < 0x1_0000,
        (x & 0xffff) < 0x1_0000,
{
}

impl Ipv4Addr {
    /// The address with the given bits.
    pub fn from_bits(bits: u32) -> (addr: Self)
        ensures
            addr@ == bits as nat,
    {
        Ipv4Addr { bits }
    }

    /// The address as a 32-bit number.
    pub fn to_bits(&self) -> (bits: u32)
        ensures
            bits as nat == self@,
    {
        self.bits
    }

    /// The address `a.b.c.d`.
    pub fn new(a: u8, b: u8, c: u8, d: u8) -> (addr: Self)
        ensures
            addr@ == octets_value(a, b, c, d),
    {
        proof {
            lemma_u32_octets(a, b, c, d);
        }
        Ipv4Addr { bits: ((a as u32) << 24) | ((b as u32) << 16) | ((c as u32) << 8) | (d as u32) }
    }

    /// The four octets of the address, the most significant first.
    pub fn octets(&self) -> (o: [u8; 4])
        ensures
            o@ == octets_of(self@),
            be_value(o@) == self@,
            octets_value(o[0], o[1], o[2], o[3]) == self@,
            o[0] as nat == self@ / 0x100_0000,
            o[1] as nat == (self@ / 0x1_0000) % 0x100,
            o[2] as nat == (self@ / 0x100) % 0x100,
            o[3] as nat == self@ % 0x100,
    {
        let x = self.bits;
        proof {
            lemma_u32_split(x);
        }
        let o = [
            (x >> 24) as u8,
            ((x >> 16) & 0xff) as u8,
            ((x >> 8) & 0xff) as u8,
            (x & 0xff) as u8,
        ];
        proof {
            Self::lemma_octets_value(o[0], o[1], o[2], o[3]);
            assert(o@ =~= seq![o[0], o[1], o[2], o[3]]);
        }
        o
    }

    /// Every address is below `2^32`.
    pub proof fn lemma_bounded(self)
        ensures
            self@ < 0x1_0000_0000,
    {
    }

    /// Two addresses with the same number are the same address.
    pub proof fn lemma_view_injective(self, other: Self)
        ensures
            self@ == other@ <==> self == other,
    {
    }
}

impl Ipv6Addr {
    /// The address with the given bits.
    pub fn from_bits(bits: u128) -> (addr: Self)
        ensures
            addr@ == bits as nat,
    {
        Ipv6Addr { bits }
    }

    /// The address as a 128-bit number.
    pub fn to_bits(&self) -> (bits: u128)
        ensures
            bits as nat == self@,
    {
        self.bits
    }

    /// The address with the given eight 16-bit segments, the most
    /// significant first.
    pub fn new(a: u16, b: u16, c: u16, d: u16, e: u16, f: u16, g: u16, h: u16) -> (addr: Self)
        ensures
            addr@ == segments_value(a, b, c, d, e, f, g, h),
    {
        proof {
            lemma_u128_segments(a, b, c, d, e, f, g, h);
        }
        Ipv6Addr {
            bits: ((a as u128) << 112) | ((b as u128) << 96) | ((c as u128) << 80) | ((d as u128)
                << 64) | ((e as u128) << 48) | ((f as u128) << 32) | ((g as u128) << 16) | (
            h as u128),
        }
    }

    /// The eight 16-bit segments of the address, the most significant first.
    pub fn segments(&self) -> (s: [u16; 8])
        ensures
            segments_value(s[0], s[1], s[2], s[3], s[4], s[5], s[6], s[7]) == self@,
            s@ == segments_of(self@),
    {
        let x = self.bits;
        proof {
            lemma_u128_split(x);
        }
        let s = [
            (x >> 112) as u16,
            ((x >> 96) & 0xffff) as u16,
            ((x >> 80) & 0xffff) as u16,
            ((x >> 64) & 0xffff) as u16,
            ((x >> 48) & 0xffff) as u16,
            ((x >> 32) & 0xffff) as u16,
            ((x >> 16) & 0xffff) as u16,
            (x & 0xffff) as u16,
        ];
        proof {
            assert(s@ =~= segments_of(self@));
        }
        s
    }

    /// Every address is below `2^128`.
    pub proof fn lemma_bounded(self)
        ensures
            self@ < 0x1_0000_0000_0000_0000_0000_0000_0000_0000,
    {
    }

    /// Two addresses with the same number are the same address.
    pub proof fn lemma_view_injective(self, other: Self)
        ensures
            self@ == other@ <==> self == other,
    {
    }
}

impl IpAddr {
    /// Whether this is an IPv4 address.
    pub fn is_ipv4(&self) -> (b: bool)
        ensures
            b == (self is V4),
    {
        match self {
            IpAddr::V4(_) => true,
            IpAddr::V6(_) => false,
        }
    }

    /// Whether this is an IPv6 address.
    pub fn is_ipv6(&self) -> (b: bool)
        ensures
            b == (self is V6),
    {
        match self {
            IpAddr::V4(_) => false,
            IpAddr::V6(_) => true,
        }
    }
}

/// The number that bytes denote, the first being the most significant.
pub open spec fn be_value(bytes: Seq<u8>) -> nat
    decreases bytes.len(),
{
    if bytes.len() == 0 {
        0
    } else {
        be_value(bytes.drop_last()) * 256 + bytes.last() as nat
    }
}

/// The number that bytes denote is below `256` to the number of bytes.
pub proof fn lemma_be_value_bounded(bytes: Seq<u8>)
    ensures
        be_value(bytes) < vstd::arithmetic::power2::pow2(8 * bytes.len()),
    decreases bytes.len(),
{
    crate::bit_math::lemma_pow2_widths();
    if bytes.len() > 0 {
        lemma_be_value_bounded(bytes.drop_last());
        vstd::arithmetic::power2::lemma_pow2_adds((8 * (bytes.len() - 1)) as nat, 8);
    }
}

proof fn lemma_u128_push_byte(x: u128, b: u8)
    by (bit_vector)
    requires
        x <= 0xff_ffff_ffff_ffff_ffff_ffff_ffff_ffffu128,
    ensures
        (x << 8) | (b as u128) == x * 256 + b,
{
}

proof fn lemma_u128_pop_byte(x: u128, k: u32)
    by (bit_vector)
    requires
        k <= 120,
    ensures
        ((x >> k) & 0xff) < 256,
        k < 120 ==> (x >> k) == (x >> ((k + 8) as u32)) * 256 + ((x >> k) & 0xff),
        k == 120 ==> (x >> k) == ((x >> k) & 0xff),
        x >> 0 == x,
{
}

impl Ipv4Addr {
    /// The address with the given four octets, the most significant first.
    pub fn from_octets(octets: [u8; 4]) -> (addr: Self)
        ensures
            addr@ == be_value(octets@),
    {
        proof {
            reveal_with_fuel(be_value, 5);
            assert(octets@.drop_last().drop_last().drop_last().drop_last().len() == 0);
        }
        Ipv4Addr::new(octets[0], octets[1], octets[2], octets[3])
    }

    /// The octets of an address denote the address.
    pub proof fn lemma_octets_value(a: u8, b: u8, c: u8, d: u8)
        ensures
            be_value(seq![a, b, c, d]) == octets_value(a, b, c, d),
    {
        let s = seq![a, b, c, d];
        reveal_with_fuel(be_value, 5);
        assert(s.drop_last() =~= seq![a, b, c]);
        assert(s.drop_last().drop_last() =~= seq![a, b]);
        assert(s.drop_last().drop_last().drop_last() =~= seq![a]);
        assert(s.drop_last().drop_last().drop_last().drop_last() =~= Seq::<u8>::empty());
    }
}

impl Ipv6Addr {
    /// The address with the given sixteen octets, the most significant
    /// first.
    pub fn from_octets(octets: [u8; 16]) -> (addr: Self)
        ensures
            addr@ == be_value(octets@),
    {
        let mut bits: u128 = 0;
        let mut i: usize = 0;
        while i < 16
            invariant
                i <= 16,
                bits as nat == be_value(octets@.take(i as int)),
            decreases 16 - i,
        {
            proof {
                lemma_be_value_bounded(octets@.take(i as int));
                crate::bit_math::lemma_pow2_widths();
                crate::bit_math::lemma_pow2_bounded((8 * i) as nat, 120);
                vstd::arithmetic::power2::lemma_pow2_adds(120, 8);
                lemma_u128_push_byte(bits, octets[i as int]);
                assert(octets@.take(i + 1).drop_last() =~= octets@.take(i as int));
            }
            bits = (bits << 8) | (octets[i] as u128);
            i += 1;
        }
        proof {
            assert(octets@.take(16) =~= octets@);
        }
        Ipv6Addr { bits }
    }

    /// The sixteen octets of the address, the most significant first.
    pub fn octets(&self) -> (octets: [u8; 16])
        ensures
            be_value(octets@) == self@,
    {
        let x = self.bits;
        let mut octets = [0u8;16];
        let mut i: usize = 0;
        while i < 16
            invariant
                i <= 16,
                x == self.bits,
                i == 0 ==> be_value(octets@.take(i as int)) == 0,
                i > 0 ==> be_value(octets@.take(i as int)) == x >> ((8 * (16 - i)) as u32),
            decreases 16 - i,
        {
            let k: u32 = (8 * (15 - i)) as u32;
            proof {
                lemma_u128_pop_byte(x, k);
            }
            let ghost before = octets@;
            octets[i] = ((x >> k) & 0xff) as u8;
            proof {
                assert(octets@.take(i + 1).drop_last() =~= before.take(i as int));
            }
            i += 1;
        }
        proof {
            assert(octets@.take(16) =~= octets@);
            lemma_u128_pop_byte(x, 0);
        }
        octets
    }
}

impl Address for Ipv4Addr {
    type Inet = Ipv4Inet;

    type Cidr = Ipv4Cidr;

    type InetPair = Ipv4InetPair;
}

impl Address for Ipv6Addr {
    type Inet = Ipv6Inet;

    type Cidr = Ipv6Cidr;

    type InetPair = Ipv6InetPair;
}

impl Address for IpAddr {
    type Inet = IpInet;

    type Cidr = IpCidr;

    type InetPair = IpInetPair;
}

} // verus!
