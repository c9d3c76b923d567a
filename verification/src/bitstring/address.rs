//! The addresses as bit strings of a fixed length: bit 0 is the most
//! significant bit of the address.  An address has the bits of its octets.

use vstd::prelude::*;
use vstd::arithmetic::power2::{lemma_pow2_adds, pow2};
use super::FixedBitString;
use crate::address::{be_value, lemma_be_value_bounded, Ipv4Addr, Ipv6Addr};
use crate::bigendian::{slice_bits, BigEndianManipulation};
use crate::bit_math::{lemma_pow2_bounded, lemma_pow2_widths};
use crate::bit_seq::{
    bit_u128,
    bit_u32,
    bit_u8,
    bits_u128,
    bits_u32,
    lemma_u8_all_clear_from,
    lemma_u8_all_set_from,
};

verus! {

proof fn lemma_u8_no_bits_bv(x: u8)
    by (bit_vector)
    ensures
        x & (u8::MAX >> 0) == x,
        u8::MAX >> 0 == u8::MAX,
{
}

proof fn lemma_u32_push_byte_bv(x: u32, b: u8, m: u32, j: u8)
    by (bit_vector)
    requires
        x <= 0xffffffu32,
        m < 32,
        j < 8,
        m >= 24 ==> j as u32 == m - 24,
    ensures
        (x << 8) | (b as u32) == x * 256 + (b as u32),
        m < 24 ==> ((((x << 8) | (b as u32)) >> ((31 - m) as u32)) & 1 == 1) == ((x >> ((31
            - (m + 8)) as u32)) & 1 == 1),
        m >= 24 ==> ((((x << 8) | (b as u32)) >> ((31 - m) as u32)) & 1 == 1) == ((b >> ((7
            - j) as u8)) & 1 == 1),
{
}

/// The number that the first `n` of 4 bytes denote has, as its last
/// bits, the bits of those bytes.
proof fn lemma_u32_bytes_upto(bytes: Seq<u8>, n: int)
    requires
        bytes.len() == 4,
        0 <= n <= 4,
    ensures
        be_value(bytes.take(n)) < pow2((8 * n) as nat),
        be_value(bytes.take(n)) <= u32::MAX,
        forall|i: int|
            0 <= i < 8 * n ==> bit_u32(be_value(bytes.take(n)) as u32, 32 - 8 * n + i)
                == #[trigger] slice_bits(bytes)[i],
    decreases n,
{
    lemma_pow2_widths();
    lemma_be_value_bounded(bytes.take(n));
    lemma_pow2_bounded((8 * n) as nat, 32);
    if n > 0 {
        lemma_u32_bytes_upto(bytes, n - 1);
        let head = bytes.take(n - 1);
        let x = be_value(head) as u32;
        let b = bytes[n - 1];
        let y = be_value(bytes.take(n)) as u32;
        assert(bytes.take(n).drop_last() =~= head);
        assert(be_value(bytes.take(n)) == be_value(head) * 256 + b as nat);
        lemma_pow2_bounded((8 * (n - 1)) as nat, 24);
        lemma_pow2_adds(24, 8);
        assert(x <= 0xffffffu32);
        assert forall|i: int| 0 <= i < 8 * n implies bit_u32(y, 32 - 8 * n + i)
            == #[trigger] slice_bits(bytes)[i] by {
            let m = 32 - 8 * n + i;
            if i < 8 * (n - 1) {
                lemma_u32_push_byte_bv(x, b, m as u32, 0);
                assert(bit_u32(x, 32 - 8 * (n - 1) + i) == slice_bits(bytes)[i]);
            } else {
                let j = i - 8 * (n - 1);
                lemma_u32_push_byte_bv(x, b, m as u32, j as u8);
                assert(i / 8 == n - 1 && i % 8 == j);
                assert(slice_bits(bytes)[i] == bit_u8(b, j));
            }
        }
    }
}

/// The bits of the number that 4 bytes denote are the bits of the
/// bytes.
pub proof fn lemma_u32_bytes_bits(bytes: Seq<u8>)
    requires
        bytes.len() == 4,
    ensures
        be_value(bytes) <= u32::MAX,
        bits_u32(be_value(bytes) as u32) == slice_bits(bytes),
{
    lemma_u32_bytes_upto(bytes, 4);
    assert(bytes.take(4) =~= bytes);
    assert(bits_u32(be_value(bytes) as u32) =~= slice_bits(bytes));
}

impl FixedBitString for Ipv4Addr {
    open(crate) spec fn bits(&self) -> Seq<bool> {
        bits_u32(self.bits)
    }

    open spec fn bit_count() -> nat {
        32
    }

    proof fn lemma_bit_count(&self) {
    }

    proof fn lemma_cloned(&self, copy: &Self) {
        // a copy of an address is the address
        assert(cloned::<Ipv4Addr>(*self, *copy));
    }

    fn inc(&mut self, prefix: usize) -> (overflow: bool) {
        let mut o = self.octets();
        proof {
            lemma_u32_bytes_bits(o@);
        }
        let overflow = u8::inc(&mut o, prefix);
        proof {
            lemma_u32_bytes_bits(o@);
        }
        *self = Ipv4Addr::from_octets(o);
        overflow
    }

    fn get(&self, ndx: usize) -> (bit: bool) {
        let o = self.octets();
        proof {
            lemma_u32_bytes_bits(o@);
        }
        u8::get(&o, ndx)
    }

    fn set(&mut self, ndx: usize, bit: bool) {
        let mut o = self.octets();
        proof {
            lemma_u32_bytes_bits(o@);
        }
        u8::set(&mut o, ndx, bit);
        proof {
            lemma_u32_bytes_bits(o@);
        }
        *self = Ipv4Addr::from_octets(o);
    }

    fn on(&mut self, ndx: usize) {
        let mut o = self.octets();
        proof {
            lemma_u32_bytes_bits(o@);
        }
        u8::on(&mut o, ndx);
        proof {
            lemma_u32_bytes_bits(o@);
        }
        *self = Ipv4Addr::from_octets(o);
    }

    fn off(&mut self, ndx: usize) {
        let mut o = self.octets();
        proof {
            lemma_u32_bytes_bits(o@);
        }
        u8::off(&mut o, ndx);
        proof {
            lemma_u32_bytes_bits(o@);
        }
        *self = Ipv4Addr::from_octets(o);
    }

    fn flip(&mut self, ndx: usize) {
        let mut o = self.octets();
        proof {
            lemma_u32_bytes_bits(o@);
        }
        u8::flip(&mut o, ndx);
        proof {
            lemma_u32_bytes_bits(o@);
        }
        *self = Ipv4Addr::from_octets(o);
    }

    fn zeroesfrom(&mut self, ndx: usize) {
        let mut o = self.octets();
        proof {
            lemma_u32_bytes_bits(o@);
        }
        u8::zeroesfrom(&mut o, ndx);
        proof {
            lemma_u32_bytes_bits(o@);
        }
        *self = Ipv4Addr::from_octets(o);
    }

    fn is_zeroesfrom(&self, ndx: usize) -> (b: bool) {
        let o = self.octets();
        proof {
            lemma_u32_bytes_bits(o@);
        }
        u8::is_zeroesfrom(&o, ndx)
    }

    fn onesfrom(&mut self, ndx: usize) {
        let mut o = self.octets();
        proof {
            lemma_u32_bytes_bits(o@);
        }
        u8::onesfrom(&mut o, ndx);
        proof {
            lemma_u32_bytes_bits(o@);
        }
        *self = Ipv4Addr::from_octets(o);
    }

    fn is_onesfrom(&self, ndx: usize) -> (b: bool) {
        let o = self.octets();
        proof {
            lemma_u32_bytes_bits(o@);
        }
        u8::is_onesfrom(&o, ndx)
    }

    fn all_zeroes() -> (zeroes: Self) {
        let octets = [0u8; 4];
        let zeroes = Ipv4Addr::from_octets(octets);
        proof {
            let o = octets@;
            lemma_u32_bytes_bits(o);
            lemma_u8_all_clear_from(0, 0);
            lemma_u8_no_bits_bv(0);
            assert(slice_bits(o) =~= Seq::new(32, |j: int| false));
        }
        zeroes
    }

    fn all_ones() -> (ones: Self) {
        let octets = [0xffu8; 4];
        let ones = Ipv4Addr::from_octets(octets);
        proof {
            let o = octets@;
            lemma_u32_bytes_bits(o);
            lemma_u8_all_set_from(0xff, 0);
            lemma_u8_no_bits_bv(0xff);
            assert(slice_bits(o) =~= Seq::new(32, |j: int| true));
        }
        ones
    }

    fn contains(&self, prefix: usize, other: &Self) -> (b: bool) {
        let o = self.octets();
        let p = other.octets();
        proof {
            lemma_u32_bytes_bits(o@);
            lemma_u32_bytes_bits(p@);
        }
        u8::contains(&o, prefix, &p)
    }
}

proof fn lemma_u128_push_byte_bv(x: u128, b: u8, m: u128, j: u8)
    by (bit_vector)
    requires
        x <= 0xffffffffffffffffffffffffffffffu128,
        m < 128,
        j < 8,
        m >= 120 ==> j as u128 == m - 120,
    ensures
        (x << 8) | (b as u128) == x * 256 + (b as u128),
        m < 120 ==> ((((x << 8) | (b as u128)) >> ((127 - m) as u128)) & 1 == 1) == ((x >> ((127
            - (m + 8)) as u128)) & 1 == 1),
        m >= 120 ==> ((((x << 8) | (b as u128)) >> ((127 - m) as u128)) & 1 == 1) == ((b >> ((7
            - j) as u8)) & 1 == 1),
{
}

/// The number that the first `n` of 16 bytes denote has, as its last
/// bits, the bits of those bytes.
proof fn lemma_u128_bytes_upto(bytes: Seq<u8>, n: int)
    requires
        bytes.len() == 16,
        0 <= n <= 16,
    ensures
        be_value(bytes.take(n)) < pow2((8 * n) as nat),
        be_value(bytes.take(n)) <= u128::MAX,
        forall|i: int|
            0 <= i < 8 * n ==> bit_u128(be_value(bytes.take(n)) as u128, 128 - 8 * n + i)
                == #[trigger] slice_bits(bytes)[i],
    decreases n,
{
    lemma_pow2_widths();
    lemma_be_value_bounded(bytes.take(n));
    lemma_pow2_bounded((8 * n) as nat, 128);
    if n > 0 {
        lemma_u128_bytes_upto(bytes, n - 1);
        let head = bytes.take(n - 1);
        let x = be_value(head) as u128;
        let b = bytes[n - 1];
        let y = be_value(bytes.take(n)) as u128;
        assert(bytes.take(n).drop_last() =~= head);
        assert(be_value(bytes.take(n)) == be_value(head) * 256 + b as nat);
        lemma_pow2_bounded((8 * (n - 1)) as nat, 120);
        lemma_pow2_adds(120, 8);
        assert(x <= 0xffffffffffffffffffffffffffffffu128);
        assert forall|i: int| 0 <= i < 8 * n implies bit_u128(y, 128 - 8 * n + i)
            == #[trigger] slice_bits(bytes)[i] by {
            let m = 128 - 8 * n + i;
            if i < 8 * (n - 1) {
                lemma_u128_push_byte_bv(x, b, m as u128, 0);
                assert(bit_u128(x, 128 - 8 * (n - 1) + i) == slice_bits(bytes)[i]);
            } else {
                let j = i - 8 * (n - 1);
                lemma_u128_push_byte_bv(x, b, m as u128, j as u8);
                assert(i / 8 == n - 1 && i % 8 == j);
                assert(slice_bits(bytes)[i] == bit_u8(b, j));
            }
        }
    }
}

/// The bits of the number that 16 bytes denote are the bits of the
/// bytes.
pub proof fn lemma_u128_bytes_bits(bytes: Seq<u8>)
    requires
        bytes.len() == 16,
    ensures
        be_value(bytes) <= u128::MAX,
        bits_u128(be_value(bytes) as u128) == slice_bits(bytes),
{
    lemma_u128_bytes_upto(bytes, 16);
    assert(bytes.take(16) =~= bytes);
    assert(bits_u128(be_value(bytes) as u128) =~= slice_bits(bytes));
}

impl FixedBitString for Ipv6Addr {
    open(crate) spec fn bits(&self) -> Seq<bool> {
        bits_u128(self.bits)
    }

    open spec fn bit_count() -> nat {
        128
    }

    proof fn lemma_bit_count(&self) {
    }

    proof fn lemma_cloned(&self, copy: &Self) {
        // a copy of an address is the address
        assert(cloned::<Ipv6Addr>(*self, *copy));
    }

    fn inc(&mut self, prefix: usize) -> (overflow: bool) {
        let mut o = self.octets();
        proof {
            lemma_u128_bytes_bits(o@);
        }
        let overflow = u8::inc(&mut o, prefix);
        proof {
            lemma_u128_bytes_bits(o@);
        }
        *self = Ipv6Addr::from_octets(o);
        overflow
    }

    fn get(&self, ndx: usize) -> (bit: bool) {
        let o = self.octets();
        proof {
            lemma_u128_bytes_bits(o@);
        }
        u8::get(&o, ndx)
    }

    fn set(&mut self, ndx: usize, bit: bool) {
        let mut o = self.octets();
        proof {
            lemma_u128_bytes_bits(o@);
        }
        u8::set(&mut o, ndx, bit);
        proof {
            lemma_u128_bytes_bits(o@);
        }
        *self = Ipv6Addr::from_octets(o);
    }

    fn on(&mut self, ndx: usize) {
        let mut o = self.octets();
        proof {
            lemma_u128_bytes_bits(o@);
        }
        u8::on(&mut o, ndx);
        proof {
            lemma_u128_bytes_bits(o@);
        }
        *self = Ipv6Addr::from_octets(o);
    }

    fn off(&mut self, ndx: usize) {
        let mut o = self.octets();
        proof {
            lemma_u128_bytes_bits(o@);
        }
        u8::off(&mut o, ndx);
        proof {
            lemma_u128_bytes_bits(o@);
        }
        *self = Ipv6Addr::from_octets(o);
    }

    fn flip(&mut self, ndx: usize) {
        let mut o = self.octets();
        proof {
            lemma_u128_bytes_bits(o@);
        }
        u8::flip(&mut o, ndx);
        proof {
            lemma_u128_bytes_bits(o@);
        }
        *self = Ipv6Addr::from_octets(o);
    }

    fn zeroesfrom(&mut self, ndx: usize) {
        let mut o = self.octets();
        proof {
            lemma_u128_bytes_bits(o@);
        }
        u8::zeroesfrom(&mut o, ndx);
        proof {
            lemma_u128_bytes_bits(o@);
        }
        *self = Ipv6Addr::from_octets(o);
    }

    fn is_zeroesfrom(&self, ndx: usize) -> (b: bool) {
        let o = self.octets();
        proof {
            lemma_u128_bytes_bits(o@);
        }
        u8::is_zeroesfrom(&o, ndx)
    }

    fn onesfrom(&mut self, ndx: usize) {
        let mut o = self.octets();
        proof {
            lemma_u128_bytes_bits(o@);
        }
        u8::onesfrom(&mut o, ndx);
        proof {
            lemma_u128_bytes_bits(o@);
        }
        *self = Ipv6Addr::from_octets(o);
    }

    fn is_onesfrom(&self, ndx: usize) -> (b: bool) {
        let o = self.octets();
        proof {
            lemma_u128_bytes_bits(o@);
        }
        u8::is_onesfrom(&o, ndx)
    }

    fn all_zeroes() -> (zeroes: Self) {
        let octets = [0u8; 16];
        let zeroes = Ipv6Addr::from_octets(octets);
        proof {
            let o = octets@;
            lemma_u128_bytes_bits(o);
            lemma_u8_all_clear_from(0, 0);
            lemma_u8_no_bits_bv(0);
            assert(slice_bits(o) =~= Seq::new(128, |j: int| false));
        }
        zeroes
    }

    fn all_ones() -> (ones: Self) {
        let octets = [0xffu8; 16];
        let ones = Ipv6Addr::from_octets(octets);
        proof {
            let o = octets@;
            lemma_u128_bytes_bits(o);
            lemma_u8_all_set_from(0xff, 0);
            lemma_u8_no_bits_bv(0xff);
            assert(slice_bits(o) =~= Seq::new(128, |j: int| true));
        }
        ones
    }

    fn contains(&self, prefix: usize, other: &Self) -> (b: bool) {
        let o = self.octets();
        let p = other.octets();
        proof {
            lemma_u128_bytes_bits(o@);
            lemma_u128_bytes_bits(p@);
        }
        u8::contains(&o, prefix, &p)
    }
}

} // verus!
