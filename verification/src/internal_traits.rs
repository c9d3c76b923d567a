//! The prefix arithmetic on the two address types, and the traits that keep
//! the public traits of this crate closed.

use vstd::prelude::*;
use vstd::arithmetic::power2::pow2;
use crate::address::{IpAddr, Ipv4Addr, Ipv6Addr};
use crate::bit_math::{
    lemma_pow2_widths,
    lemma_u128_low_mask_ops,
    lemma_u128_shifted_ones,
    lemma_u32_low_mask_ops,
    lemma_u32_shifted_ones,
};
use crate::family::Family;
use crate::num::NumberOfAddresses;
use crate::prefix_math::{
    Prefix,
    Span,
    block_size,
    has_zero_host_part,
    host_bits,
    host_mask,
    host_part,
    last_address,
    lemma_block_size,
    lemma_parts,
    lemma_wrapping_backward,
    lemma_wrapping_forward,
    network_address,
    network_mask,
    prefix_match,
    step_backward,
    step_forward,
};

verus! {

/// Implemented for `Ipv4Addr`, `Ipv6Addr` and `IpAddr`.  Seals the
/// `Address` trait, and says what an address is: a number with a family.
pub trait PrivUnspecAddress: Sized {
    /// The prefix arithmetic for this address type.
    type _Tools;

    /// The family of the address.
    spec fn _family(&self) -> Family;

    /// The address as a number.
    spec fn _value(&self) -> nat;
}

/// Seals the `Cidr` trait, and says what a network is: a family, the first
/// address and a network length.
pub trait PrivCidr: Sized {
    /// The family of the network.
    spec fn _family(&self) -> Family;

    /// The first address of the network and its length.
    spec fn _prefix(&self) -> Prefix;
}

/// Seals the `Inet` trait, and says what a host within a network is: a
/// family, the address of the host and a network length.
pub trait PrivInet: Sized {
    /// The family of the host.
    spec fn _family(&self) -> Family;

    /// The address of the host and the length of its network.
    spec fn _prefix(&self) -> Prefix;
}

/// Seals the `InetPair` trait, says what a pair is (a family, two
/// addresses and a network length), and holds what the iteration over a
/// pair needs.
pub trait PrivInetPair: Sized {
    /// The family of the pair.
    spec fn _family(&self) -> Family;

    /// The two addresses of the pair and the length of their network.
    spec fn _span(&self) -> Span;

    /// The number of addresses from the first to the second, both counted.
    fn _covered_addresses(&self) -> (n: NumberOfAddresses)
        ensures
            self._span().first <= self._span().second,
            n@ == self._span().second - self._span().first + 1,
    ;

    /// Moves the first address one up, unless it is the second address
    /// already; says whether it did.
    fn _inc_first(&mut self) -> (moved: bool)
        ensures
            moved == (old(self)._span().first < old(self)._span().second),
            moved ==> final(self)._span() == (Span {
                first: old(self)._span().first + 1,
                ..old(self)._span()
            }),
            moved ==> final(self)._family() == old(self)._family(),
            !moved ==> *final(self) == *old(self),
    ;

    /// Moves the second address one down, unless it is the first address
    /// already; says whether it did.
    fn _dec_second(&mut self) -> (moved: bool)
        ensures
            moved == (old(self)._span().first < old(self)._span().second),
            moved ==> final(self)._span() == (Span {
                second: (old(self)._span().second - 1) as nat,
                ..old(self)._span()
            }),
            moved ==> final(self)._family() == old(self)._family(),
            !moved ==> *final(self) == *old(self),
    ;
}

proof fn lemma_u32_truncate(step: u128)
    by (bit_vector)
    ensures
        (step as u32) == step % 0x1_0000_0000,
{
}

/// The sum of two `u32` modulo `2^32`, and whether it wrapped.
fn overflowing_add_u32(a: u32, b: u32) -> (r: (u32, bool))
    ensures
        r.0 as nat == (a as nat + b as nat) % pow2(32),
        r.1 == (a + b >= pow2(32)),
{
    proof {
        lemma_pow2_widths();
        if a + b < 0x1_0000_0000 {
            vstd::arithmetic::div_mod::lemma_small_mod((a + b) as nat, 0x1_0000_0000);
        } else {
            vstd::arithmetic::div_mod::lemma_small_mod((a + b - 0x1_0000_0000) as nat, 0x1_0000_0000);
            vstd::arithmetic::div_mod::lemma_mod_sub_multiples_vanish(a + b, 0x1_0000_0000);
        }
    }
    let sum = a.wrapping_add(b);
    (sum, sum < a)
}

/// The difference of two `u32` modulo `2^32`, and whether it wrapped.
fn overflowing_sub_u32(a: u32, b: u32) -> (r: (u32, bool))
    ensures
        r.0 as nat == (a as int - b as int) % (pow2(32) as int),
        r.1 == (b > a),
{
    proof {
        lemma_pow2_widths();
        if a >= b {
            vstd::arithmetic::div_mod::lemma_small_mod((a - b) as nat, 0x1_0000_0000);
        } else {
            vstd::arithmetic::div_mod::lemma_small_mod((a - b + 0x1_0000_0000) as nat, 0x1_0000_0000);
            vstd::arithmetic::div_mod::lemma_mod_add_multiples_vanish(a - b, 0x1_0000_0000);
        }
    }
    let diff = a.wrapping_sub(b);
    (diff, b > a)
}

/// The sum of two `u128` modulo `2^128`, and whether it wrapped.
fn overflowing_add_u128(a: u128, b: u128) -> (r: (u128, bool))
    ensures
        r.0 as nat == (a as nat + b as nat) % pow2(128),
        r.1 == (a + b >= pow2(128)),
{
    proof {
        lemma_pow2_widths();
        let top = 0x1_0000_0000_0000_0000_0000_0000_0000_0000int;
        if a + b < top {
            vstd::arithmetic::div_mod::lemma_small_mod((a + b) as nat, top as nat);
        } else {
            vstd::arithmetic::div_mod::lemma_small_mod((a + b - top) as nat, top as nat);
            vstd::arithmetic::div_mod::lemma_mod_sub_multiples_vanish(a + b, top);
        }
    }
    let sum = a.wrapping_add(b);
    (sum, sum < a)
}

/// The difference of two `u128` modulo `2^128`, and whether it wrapped.
fn overflowing_sub_u128(a: u128, b: u128) -> (r: (u128, bool))
    ensures
        r.0 as nat == (a as int - b as int) % (pow2(128) as int),
        r.1 == (b > a),
{
    proof {
        lemma_pow2_widths();
        let top = 0x1_0000_0000_0000_0000_0000_0000_0000_0000int;
        if a >= b {
            vstd::arithmetic::div_mod::lemma_small_mod((a - b) as nat, top as nat);
        } else {
            vstd::arithmetic::div_mod::lemma_small_mod((a - b + top) as nat, top as nat);
            vstd::arithmetic::div_mod::lemma_mod_add_multiples_vanish(a - b, top);
        }
    }
    let diff = a.wrapping_sub(b);
    (diff, b > a)
}

/// An IPv4 address taken apart for a step within its network.
struct Ipv4OverflowingOp {
    address: u32,
    net_mask: u32,
    host_mask: u32,
    prefix_len: Ghost<nat>,
}

impl Ipv4OverflowingOp {
    /// The masks are those of the prefix length.
    spec fn wf(self) -> bool {
        &&& self.host_mask as nat == host_mask(32, self.prefix_len@)
        &&& self.net_mask == !self.host_mask
    }

    fn new(address: Ipv4Addr, prefix_len: u8) -> (op: Self)
        ensures
            op.wf(),
            op.address as nat == address@,
            op.prefix_len@ == prefix_len as nat,
    {
        let host_mask = Ipv4AddrTools::native_host_mask(prefix_len);
        let net_mask = !host_mask;
        let address: u32 = Ipv4AddrTools::to_native(address);
        Ipv4OverflowingOp { address, net_mask, host_mask, prefix_len: Ghost(prefix_len as nat) }
    }

    /// Puts a stepped address back into the network it came from.
    fn handle_result(self, stepped: (u32, bool)) -> (r: (Ipv4Addr, bool))
        requires
            self.wf(),
        ensures
            r.0@ == network_address(self.address as nat, 32, self.prefix_len@) + host_part(
                stepped.0 as nat,
                32,
                self.prefix_len@,
            ),
            r.1 == (stepped.1 || network_address(stepped.0 as nat, 32, self.prefix_len@)
                != network_address(self.address as nat, 32, self.prefix_len@)),
    {
        let (mut res, mut overflow) = stepped;
        proof {
            let h = host_bits(32, self.prefix_len@);
            lemma_pow2_widths();
            lemma_u32_low_mask_ops(res, self.address, self.host_mask, h);
            lemma_u32_low_mask_ops(self.address, res, self.host_mask, h);
            lemma_parts(res as nat, 32, self.prefix_len@);
            lemma_parts(self.address as nat, 32, self.prefix_len@);
        }
        let net_address = self.address & self.net_mask;
        if res & self.net_mask != net_address {
            // the step left the network: put its network part back
            res = (res & self.host_mask) | net_address;
            overflow = true
        }
        (Ipv4AddrTools::from_native(res), overflow)
    }
}

/// The prefix arithmetic on IPv4 addresses.
pub struct Ipv4AddrTools(());

impl Ipv4AddrTools {
    /// The address as a number.
    pub fn to_native(ip: Ipv4Addr) -> (n: u32)
        ensures
            n as nat == ip@,
    {
        ip.to_bits()
    }

    /// The address that a number stands for.
    pub fn from_native(ip: u32) -> (addr: Ipv4Addr)
        ensures
            addr@ == ip as nat,
    {
        Ipv4Addr::from_bits(ip)
    }

    /// The mask of the host bits: all ones in the low `32 - prefix_len`
    /// bits, and no bit at all where `prefix_len` is 32 or more.
    pub fn native_host_mask(prefix_len: u8) -> (mask: u32)
        ensures
            mask as nat == host_mask(32, prefix_len as nat),
    {
        proof {
            lemma_pow2_widths();
        }
        if prefix_len >= 32 {
            0
        } else {
            proof {
                lemma_u32_shifted_ones(prefix_len as u32);
            }
            u32::MAX >> prefix_len
        }
    }

    /// Whether the host part of the address is zero.
    pub fn _has_zero_host_part(address: Ipv4Addr, prefix_len: u8) -> (b: bool)
        ensures
            b == has_zero_host_part(address@, 32, prefix_len as nat),
    {
        let host_mask: u32 = Self::native_host_mask(prefix_len);
        let addr_num = Self::to_native(address);
        proof {
            lemma_u32_low_mask_ops(addr_num, 0, host_mask, host_bits(32, prefix_len as nat));
        }
        (addr_num & host_mask) == 0
    }

    /// The next address in the network, and whether there was none.
    pub fn _overflowing_next(address: Ipv4Addr, prefix_len: u8) -> (r: (Ipv4Addr, bool))
        ensures
            (r.0@, r.1) == step_forward(address@, 32, prefix_len as nat, 1),
    {
        Self::_overflowing_inc_u32(address, prefix_len, 1)
    }

    /// The address `step_u32` after this one in the network, and whether
    /// the network has none.
    pub fn _overflowing_inc_u32(address: Ipv4Addr, prefix_len: u8, step_u32: u32) -> (r: (
        Ipv4Addr,
        bool,
    ))
        ensures
            (r.0@, r.1) == step_forward(address@, 32, prefix_len as nat, step_u32 as nat),
    {
        let op = Ipv4OverflowingOp::new(address, prefix_len);
        proof {
            lemma_pow2_widths();
            lemma_wrapping_forward(address@, 32, prefix_len as nat, step_u32 as nat);
        }
        let stepped = overflowing_add_u32(op.address, step_u32);
        let (res, overflow) = op.handle_result(stepped);
        (res, overflow)
    }

    /// The address `step` after this one in the network, and whether the
    /// network has none.
    pub fn _overflowing_inc(address: Ipv4Addr, prefix_len: u8, step: u128) -> (r: (Ipv4Addr, bool))
        ensures
            (r.0@, r.1) == step_forward(address@, 32, prefix_len as nat, step as nat),
    {
        let step_u32 = #[verifier::truncate]
        (step as u32);
        let step_overflow = step_u32 as u128 != step;
        let (res, overflow) = Self::_overflowing_inc_u32(address, prefix_len, step_u32);
        proof {
            lemma_u32_truncate(step);
            lemma_pow2_widths();
            address.lemma_bounded();
            lemma_step_reduced(address@, prefix_len as nat, step as nat);
        }
        (res, overflow || step_overflow)
    }

    /// The address before this one in the network, and whether there was
    /// none.
    pub fn _overflowing_prev(address: Ipv4Addr, prefix_len: u8) -> (r: (Ipv4Addr, bool))
        ensures
            (r.0@, r.1) == step_backward(address@, 32, prefix_len as nat, 1),
    {
        Self::_overflowing_dec_u32(address, prefix_len, 1)
    }

    /// The address `step_u32` before this one in the network, and whether
    /// the network has none.
    pub fn _overflowing_dec_u32(address: Ipv4Addr, prefix_len: u8, step_u32: u32) -> (r: (
        Ipv4Addr,
        bool,
    ))
        ensures
            (r.0@, r.1) == step_backward(address@, 32, prefix_len as nat, step_u32 as nat),
    {
        let op = Ipv4OverflowingOp::new(address, prefix_len);
        proof {
            lemma_pow2_widths();
            lemma_wrapping_backward(address@, 32, prefix_len as nat, step_u32 as nat);
        }
        let stepped = overflowing_sub_u32(op.address, step_u32);
        let (res, overflow) = op.handle_result(stepped);
        (res, overflow)
    }

    /// The address `step` before this one in the network, and whether the
    /// network has none.
    pub fn _overflowing_dec(address: Ipv4Addr, prefix_len: u8, step: u128) -> (r: (Ipv4Addr, bool))
        ensures
            (r.0@, r.1) == step_backward(address@, 32, prefix_len as nat, step as nat),
    {
        let step_u32 = #[verifier::truncate]
        (step as u32);
        let step_overflow = step_u32 as u128 != step;
        let (res, overflow) = Self::_overflowing_dec_u32(address, prefix_len, step_u32);
        proof {
            lemma_u32_truncate(step);
            lemma_pow2_widths();
            address.lemma_bounded();
            lemma_step_reduced(address@, prefix_len as nat, step as nat);
        }
        (res, overflow || step_overflow)
    }

    /// Whether the two addresses share their first `prefix_len` bits.
    pub fn _prefix_match(address: Ipv4Addr, other: Ipv4Addr, prefix_len: u8) -> (b: bool)
        ensures
            b == prefix_match(address@, other@, 32, prefix_len as nat),
    {
        let host_mask = Self::native_host_mask(prefix_len);
        let net_mask: u32 = !host_mask;
        let a = Self::to_native(address);
        let o = Self::to_native(other);
        proof {
            let h = host_bits(32, prefix_len as nat);
            lemma_pow2_widths();
            lemma_u32_low_mask_ops(a, o, host_mask, h);
            lemma_u32_low_mask_ops(o, a, host_mask, h);
            lemma_parts(a as nat, 32, prefix_len as nat);
            lemma_parts(o as nat, 32, prefix_len as nat);
        }
        (a & net_mask) == (o & net_mask)
    }

    /// The first address of the network of `address`.
    pub fn _network_address(address: Ipv4Addr, prefix_len: u8) -> (first: Ipv4Addr)
        ensures
            first@ == network_address(address@, 32, prefix_len as nat),
    {
        let host_mask = Self::native_host_mask(prefix_len);
        let net_mask: u32 = !host_mask;
        let a = Self::to_native(address);
        proof {
            lemma_pow2_widths();
            lemma_u32_low_mask_ops(a, 0, host_mask, host_bits(32, prefix_len as nat));
            lemma_parts(a as nat, 32, prefix_len as nat);
        }
        Self::from_native(a & net_mask)
    }

    /// The last address of the network of `address`.
    pub fn _last_address(address: Ipv4Addr, prefix_len: u8) -> (last: Ipv4Addr)
        ensures
            last@ == last_address(address@, 32, prefix_len as nat),
    {
        let host_mask: u32 = Self::native_host_mask(prefix_len);
        let a = Self::to_native(address);
        proof {
            lemma_pow2_widths();
            lemma_u32_low_mask_ops(a, 0, host_mask, host_bits(32, prefix_len as nat));
            lemma_parts(a as nat, 32, prefix_len as nat);
        }
        Self::from_native(a | host_mask)
    }

    /// The network mask as an address: the first `prefix_len` bits set.
    pub fn _network_mask(prefix_len: u8) -> (mask: Ipv4Addr)
        ensures
            mask@ == network_mask(32, prefix_len as nat),
    {
        let host_mask = Self::native_host_mask(prefix_len);
        proof {
            lemma_u32_low_mask_ops(0, 0, host_mask, host_bits(32, prefix_len as nat));
            lemma_block_size(32, prefix_len as nat);
        }
        Self::from_native(!host_mask)
    }
}

/// A step of `2^32` or more leaves every IPv4 network, and lands where the
/// step reduced modulo `2^32` lands.
proof fn lemma_step_reduced(addr: nat, len: nat, step: nat)
    requires
        addr < pow2(32),
    ensures
        step_forward(addr, 32, len, step).0 == step_forward(addr, 32, len, step % pow2(32)).0,
        step_forward(addr, 32, len, step).1 == (step_forward(addr, 32, len, step % pow2(32)).1
            || step >= pow2(32)),
        step_backward(addr, 32, len, step).0 == step_backward(addr, 32, len, step % pow2(32)).0,
        step_backward(addr, 32, len, step).1 == (step_backward(addr, 32, len, step % pow2(32)).1
            || step >= pow2(32)),
{
    let b = block_size(32, len) as int;
    let top = pow2(32) as int;
    let h = host_part(addr, 32, len) as int;
    let s = step as int;
    let t = s % top;
    lemma_block_size(32, len);
    lemma_parts(addr, 32, len);
    vstd::arithmetic::div_mod::lemma_mod_bound(s, top);
    if len <= 32 {
        vstd::arithmetic::power2::lemma_pow2_pos(len);
        vstd::arithmetic::div_mod::lemma_mod_mod(s, b, pow2(len) as int);
    }
    assert(t % b == s % b);
    vstd::arithmetic::div_mod::lemma_add_mod_noop(h, s, b);
    vstd::arithmetic::div_mod::lemma_add_mod_noop(h, t, b);
    vstd::arithmetic::div_mod::lemma_sub_mod_noop(h, s, b);
    vstd::arithmetic::div_mod::lemma_sub_mod_noop(h, t, b);
    if s < top {
        vstd::arithmetic::div_mod::lemma_small_mod(s as nat, top as nat);
    }
}

impl PrivUnspecAddress for Ipv4Addr {
    type _Tools = Ipv4AddrTools;

    open spec fn _family(&self) -> Family {
        Family::Ipv4
    }

    open spec fn _value(&self) -> nat {
        self@
    }
}

/// An IPv6 address taken apart for a step within its network.
struct Ipv6OverflowingOp {
    address: u128,
    net_mask: u128,
    host_mask: u128,
    prefix_len: Ghost<nat>,
}

impl Ipv6OverflowingOp {
    /// The masks are those of the prefix length.
    spec fn wf(self) -> bool {
        &&& self.host_mask as nat == host_mask(128, self.prefix_len@)
        &&& self.net_mask == !self.host_mask
    }

    fn new(address: Ipv6Addr, prefix_len: u8) -> (op: Self)
        ensures
            op.wf(),
            op.address as nat == address@,
            op.prefix_len@ == prefix_len as nat,
    {
        let host_mask = Ipv6AddrTools::native_host_mask(prefix_len);
        let net_mask = !host_mask;
        let address: u128 = Ipv6AddrTools::to_native(address);
        Ipv6OverflowingOp { address, net_mask, host_mask, prefix_len: Ghost(prefix_len as nat) }
    }

    /// Puts a stepped address back into the network it came from.
    fn handle_result(self, stepped: (u128, bool)) -> (r: (Ipv6Addr, bool))
        requires
            self.wf(),
        ensures
            r.0@ == network_address(self.address as nat, 128, self.prefix_len@) + host_part(
                stepped.0 as nat,
                128,
                self.prefix_len@,
            ),
            r.1 == (stepped.1 || network_address(stepped.0 as nat, 128, self.prefix_len@)
                != network_address(self.address as nat, 128, self.prefix_len@)),
    {
        let (mut res, mut overflow) = stepped;
        proof {
            let h = host_bits(128, self.prefix_len@);
            lemma_pow2_widths();
            lemma_u128_low_mask_ops(res, self.address, self.host_mask, h);
            lemma_u128_low_mask_ops(self.address, res, self.host_mask, h);
            lemma_parts(res as nat, 128, self.prefix_len@);
            lemma_parts(self.address as nat, 128, self.prefix_len@);
        }
        let net_address = self.address & self.net_mask;
        if res & self.net_mask != net_address {
            // the step left the network: put its network part back
            res = (res & self.host_mask) | net_address;
            overflow = true
        }
        (Ipv6AddrTools::from_native(res), overflow)
    }
}

/// The prefix arithmetic on IPv6 addresses.
pub struct Ipv6AddrTools(());

impl Ipv6AddrTools {
    /// The address as a number.
    pub fn to_native(ip: Ipv6Addr) -> (n: u128)
        ensures
            n as nat == ip@,
    {
        ip.to_bits()
    }

    /// The address that a number stands for.
    pub fn from_native(ip: u128) -> (addr: Ipv6Addr)
        ensures
            addr@ == ip as nat,
    {
        Ipv6Addr::from_bits(ip)
    }

    /// The mask of the host bits: all ones in the low `128 - prefix_len`
    /// bits, and no bit at all where `prefix_len` is 128 or more.
    pub fn native_host_mask(prefix_len: u8) -> (mask: u128)
        ensures
            mask as nat == host_mask(128, prefix_len as nat),
    {
        proof {
            lemma_pow2_widths();
        }
        if prefix_len >= 128 {
            0
        } else {
            proof {
                lemma_u128_shifted_ones(prefix_len as u128);
            }
            u128::MAX >> prefix_len
        }
    }

    /// Whether the host part of the address is zero.
    pub fn _has_zero_host_part(address: Ipv6Addr, prefix_len: u8) -> (b: bool)
        ensures
            b == has_zero_host_part(address@, 128, prefix_len as nat),
    {
        let host_mask: u128 = Self::native_host_mask(prefix_len);
        let addr_num = Self::to_native(address);
        proof {
            lemma_u128_low_mask_ops(addr_num, 0, host_mask, host_bits(128, prefix_len as nat));
        }
        (addr_num & host_mask) == 0
    }

    /// The next address in the network, and whether there was none.
    pub fn _overflowing_next(address: Ipv6Addr, prefix_len: u8) -> (r: (Ipv6Addr, bool))
        ensures
            (r.0@, r.1) == step_forward(address@, 128, prefix_len as nat, 1),
    {
        Self::_overflowing_inc(address, prefix_len, 1)
    }

    /// The address `step` after this one in the network, and whether the
    /// network has none.
    pub fn _overflowing_inc(address: Ipv6Addr, prefix_len: u8, step: u128) -> (r: (Ipv6Addr, bool))
        ensures
            (r.0@, r.1) == step_forward(address@, 128, prefix_len as nat, step as nat),
    {
        let op = Ipv6OverflowingOp::new(address, prefix_len);
        proof {
            lemma_pow2_widths();
            lemma_wrapping_forward(address@, 128, prefix_len as nat, step as nat);
        }
        let stepped = overflowing_add_u128(op.address, step);
        op.handle_result(stepped)
    }

    /// The address before this one in the network, and whether there was
    /// none.
    pub fn _overflowing_prev(address: Ipv6Addr, prefix_len: u8) -> (r: (Ipv6Addr, bool))
        ensures
            (r.0@, r.1) == step_backward(address@, 128, prefix_len as nat, 1),
    {
        Self::_overflowing_dec(address, prefix_len, 1)
    }

    /// The address `step` before this one in the network, and whether the
    /// network has none.
    pub fn _overflowing_dec(address: Ipv6Addr, prefix_len: u8, step: u128) -> (r: (Ipv6Addr, bool))
        ensures
            (r.0@, r.1) == step_backward(address@, 128, prefix_len as nat, step as nat),
    {
        let op = Ipv6OverflowingOp::new(address, prefix_len);
        proof {
            lemma_pow2_widths();
            lemma_wrapping_backward(address@, 128, prefix_len as nat, step as nat);
        }
        let stepped = overflowing_sub_u128(op.address, step);
        op.handle_result(stepped)
    }

    /// Whether the two addresses share their first `prefix_len` bits.
    pub fn _prefix_match(address: Ipv6Addr, other: Ipv6Addr, prefix_len: u8) -> (b: bool)
        ensures
            b == prefix_match(address@, other@, 128, prefix_len as nat),
    {
        let host_mask = Self::native_host_mask(prefix_len);
        let net_mask: u128 = !host_mask;
        let a = Self::to_native(address);
        let o = Self::to_native(other);
        proof {
            let h = host_bits(128, prefix_len as nat);
            lemma_pow2_widths();
            lemma_u128_low_mask_ops(a, o, host_mask, h);
            lemma_u128_low_mask_ops(o, a, host_mask, h);
            lemma_parts(a as nat, 128, prefix_len as nat);
            lemma_parts(o as nat, 128, prefix_len as nat);
        }
        (a & net_mask) == (o & net_mask)
    }

    /// The first address of the network of `address`.
    pub fn _network_address(address: Ipv6Addr, prefix_len: u8) -> (first: Ipv6Addr)
        ensures
            first@ == network_address(address@, 128, prefix_len as nat),
    {
        let host_mask = Self::native_host_mask(prefix_len);
        let net_mask: u128 = !host_mask;
        let a = Self::to_native(address);
        proof {
            lemma_pow2_widths();
            lemma_u128_low_mask_ops(a, 0, host_mask, host_bits(128, prefix_len as nat));
            lemma_parts(a as nat, 128, prefix_len as nat);
        }
        Self::from_native(a & net_mask)
    }

    /// The last address of the network of `address`.
    pub fn _last_address(address: Ipv6Addr, prefix_len: u8) -> (last: Ipv6Addr)
        ensures
            last@ == last_address(address@, 128, prefix_len as nat),
    {
        let host_mask: u128 = Self::native_host_mask(prefix_len);
        let a = Self::to_native(address);
        proof {
            lemma_pow2_widths();
            lemma_u128_low_mask_ops(a, 0, host_mask, host_bits(128, prefix_len as nat));
            lemma_parts(a as nat, 128, prefix_len as nat);
        }
        Self::from_native(a | host_mask)
    }

    /// The network mask as an address: the first `prefix_len` bits set.
    pub fn _network_mask(prefix_len: u8) -> (mask: Ipv6Addr)
        ensures
            mask@ == network_mask(128, prefix_len as nat),
    {
        let host_mask = Self::native_host_mask(prefix_len);
        proof {
            lemma_u128_low_mask_ops(0, 0, host_mask, host_bits(128, prefix_len as nat));
            lemma_block_size(128, prefix_len as nat);
        }
        Self::from_native(!host_mask)
    }
}

impl PrivUnspecAddress for Ipv6Addr {
    type _Tools = Ipv6AddrTools;

    open spec fn _family(&self) -> Family {
        Family::Ipv6
    }

    open spec fn _value(&self) -> nat {
        self@
    }
}

/// The prefix arithmetic on addresses of either family goes by the family:
/// see `Ipv4AddrTools` and `Ipv6AddrTools`.
pub struct IpAddrTools(());

impl PrivUnspecAddress for IpAddr {
    type _Tools = IpAddrTools;

    open spec fn _family(&self) -> Family {
        match self {
            IpAddr::V4(_) => Family::Ipv4,
            IpAddr::V6(_) => Family::Ipv6,
        }
    }

    open spec fn _value(&self) -> nat {
        match self {
            IpAddr::V4(a) => a@,
            IpAddr::V6(a) => a@,
        }
    }
}

} // verus!
