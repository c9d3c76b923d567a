//! The arithmetic of network prefixes.
//!
//! An address of width `w` is a number below `2^w`.  A prefix length `len`
//! splits it into a network part (the `len` most significant bits) and a host
//! part (the remaining `w - len` bits).  A network is a block of
//! `2^(w - len)` consecutive addresses that starts at a multiple of its size.

use vstd::prelude::*;
use vstd::arithmetic::div_mod::{
    lemma_add_mod_noop,
    lemma_fundamental_div_mod,
    lemma_fundamental_div_mod_converse,
    lemma_mod_mod,
    lemma_mod_multiples_vanish,
    lemma_small_mod,
};
use vstd::arithmetic::power2::{lemma_pow2_adds, lemma_pow2_pos, pow2};
use crate::bit_math::lemma_pow2_bounded;

verus! {

/// An address with a prefix length, both as numbers: what a network or a
/// host within a network is.
pub struct Prefix {
    /// the address
    pub address: nat,
    /// the number of leading bits that make up the network part
    pub length: nat,
}

/// Two addresses with one prefix length, as numbers: what a range of
/// addresses within one network is.
pub struct Span {
    /// the first address
    pub first: nat,
    /// the second address
    pub second: nat,
    /// the number of leading bits that make up the network part
    pub length: nat,
}

/// The hosts from the first to the second address of a span, in order;
/// none where the second comes before the first.
pub open spec fn span_hosts(span: Span) -> Seq<Prefix> {
    if span.first <= span.second {
        Seq::new(
            (span.second - span.first + 1) as nat,
            |i: int| Prefix { address: (span.first + i) as nat, length: span.length },
        )
    } else {
        Seq::empty()
    }
}

/// Number of host bits of a network with prefix length `len`; none when
/// `len` is the width or more.
pub open spec fn host_bits(width: nat, len: nat) -> nat {
    if len >= width {
        0
    } else {
        (width - len) as nat
    }
}

/// Number of addresses in a network with prefix length `len`.
pub open spec fn block_size(width: nat, len: nat) -> nat {
    pow2(host_bits(width, len))
}

/// The mask with exactly the host bits set.
pub open spec fn host_mask(width: nat, len: nat) -> nat {
    (block_size(width, len) - 1) as nat
}

/// The mask with exactly the network bits set.
pub open spec fn network_mask(width: nat, len: nat) -> nat {
    (pow2(width) - block_size(width, len)) as nat
}

/// The host part of `addr`: its offset within its network.
pub open spec fn host_part(addr: nat, width: nat, len: nat) -> nat {
    addr % block_size(width, len)
}

/// Whether `addr` is the first address of its network.
pub open spec fn has_zero_host_part(addr: nat, width: nat, len: nat) -> bool {
    host_part(addr, width, len) == 0
}

/// The first address of the network of `addr`.
pub open spec fn network_address(addr: nat, width: nat, len: nat) -> nat {
    (addr - host_part(addr, width, len)) as nat
}

/// The last address of the network of `addr`.
pub open spec fn last_address(addr: nat, width: nat, len: nat) -> nat {
    network_address(addr, width, len) + host_mask(width, len)
}

/// Whether `a` and `b` lie in the same network.
pub open spec fn prefix_match(a: nat, b: nat, width: nat, len: nat) -> bool {
    network_address(a, width, len) == network_address(b, width, len)
}

/// The address `step` hosts after `addr`, counted round within the network
/// of `addr`, and whether the count left the network.
pub open spec fn step_forward(addr: nat, width: nat, len: nat, step: nat) -> (nat, bool) {
    (
        network_address(addr, width, len) + (host_part(addr, width, len) + step) % block_size(
            width,
            len,
        ),
        host_part(addr, width, len) + step >= block_size(width, len),
    )
}

/// The address `step` hosts before `addr`, counted round within the network
/// of `addr`, and whether the count left the network.
pub open spec fn step_backward(addr: nat, width: nat, len: nat, step: nat) -> (nat, bool) {
    (
        (network_address(addr, width, len) + (host_part(addr, width, len) - step) % (block_size(
            width,
            len,
        ) as int)) as nat,
        step > host_part(addr, width, len),
    )
}

/// The size of a network is a positive power of two that divides `2^width`.
pub proof fn lemma_block_size(width: nat, len: nat)
    ensures
        0 < block_size(width, len) <= pow2(width),
        len <= width ==> block_size(width, len) * pow2(len) == pow2(width),
        len >= width ==> block_size(width, len) == 1,
        len == 0 ==> block_size(width, len) == pow2(width),
{
    lemma_pow2_bounded(host_bits(width, len), width);
    crate::bit_math::lemma_pow2_widths();
    if len <= width {
        lemma_pow2_adds(host_bits(width, len), len);
    }
}

/// The parts of an address: the network address is a multiple of the block
/// size, the host part is below it, and their sum is the address.
pub proof fn lemma_parts(addr: nat, width: nat, len: nat)
    requires
        addr < pow2(width),
    ensures
        host_part(addr, width, len) < block_size(width, len),
        network_address(addr, width, len) + host_part(addr, width, len) == addr,
        network_address(addr, width, len) == block_size(width, len) * (addr / block_size(
            width,
            len,
        )),
        network_address(addr, width, len) % block_size(width, len) == 0,
        network_address(addr, width, len) <= addr <= last_address(addr, width, len),
        last_address(addr, width, len) < pow2(width),
{
    let b = block_size(width, len) as int;
    lemma_block_size(width, len);
    lemma_fundamental_div_mod(addr as int, b);
    let q = (addr as int) / b;
    assert(0 <= addr as int % b < b);
    assert(q >= 0) by (nonlinear_arith)
        requires
            b > 0,
            addr >= 0,
            q == (addr as int) / b,
    ;
    lemma_mod_multiples_vanish(q, 0, b);
    lemma_small_mod(0, b as nat);
    assert((b * q) % b == 0) by {
        assert(b * q == q * b + 0) by (nonlinear_arith);
    }
    lemma_block_top(b * q, b, pow2(width) as int, width, len);
}

/// A multiple of the block size below `2^width` leaves room for a whole block.
proof fn lemma_block_top(n: int, b: int, top: int, width: nat, len: nat)
    requires
        b == block_size(width, len),
        top == pow2(width),
        0 <= n < top,
        n % b == 0,
    ensures
        n + b <= top,
{
    lemma_block_size(width, len);
    if len >= width {
    } else {
        let k = pow2(len) as int;
        lemma_pow2_pos(len);
        lemma_fundamental_div_mod(n, b);
        let q = n / b;
        assert(b * k == top);
        assert(n == b * q);
        assert(q < k) by (nonlinear_arith)
            requires
                b * q < b * k,
                b > 0,
        ;
        assert(b * (q + 1) <= b * k) by (nonlinear_arith)
            requires
                q + 1 <= k,
                b > 0,
        ;
        assert(b * (q + 1) == b * q + b) by (nonlinear_arith);
    }
}

/// An address whose offset from a multiple of the block size is below the
/// block size has that multiple as its network address.
pub proof fn lemma_network_of_offset(n: nat, r: nat, width: nat, len: nat)
    requires
        n % block_size(width, len) == 0,
        r < block_size(width, len),
    ensures
        network_address(n + r, width, len) == n,
        host_part(n + r, width, len) == r,
{
    let b = block_size(width, len) as int;
    lemma_block_size(width, len);
    lemma_fundamental_div_mod(n as int, b);
    let q = (n as int) / b;
    assert(n + r == q * b + r) by (nonlinear_arith)
        requires
            n == b * q,
    ;
    lemma_fundamental_div_mod_converse((n + r) as int, b, q, r as int);
}

/// The network address of an address is its own network address, and so is
/// that of the last address of the network.
pub proof fn lemma_network_idempotent(addr: nat, width: nat, len: nat)
    requires
        addr < pow2(width),
    ensures
        network_address(network_address(addr, width, len), width, len) == network_address(
            addr,
            width,
            len,
        ),
        network_address(last_address(addr, width, len), width, len) == network_address(
            addr,
            width,
            len,
        ),
        host_part(last_address(addr, width, len), width, len) == host_mask(width, len),
        has_zero_host_part(network_address(addr, width, len), width, len),
{
    lemma_parts(addr, width, len);
    lemma_block_size(width, len);
    let n = network_address(addr, width, len);
    lemma_network_of_offset(n, 0, width, len);
    lemma_network_of_offset(n, host_mask(width, len), width, len);
}

/// The addresses that match the prefix of `a` are those from the first to
/// the last address of the network of `a`.
pub proof fn lemma_match_is_range(a: nat, x: nat, width: nat, len: nat)
    requires
        a < pow2(width),
        x < pow2(width),
    ensures
        prefix_match(a, x, width, len) <==> network_address(a, width, len) <= x <= last_address(
            a,
            width,
            len,
        ),
        has_zero_host_part(a, width, len) ==> network_address(a, width, len) == a,
{
    lemma_parts(a, width, len);
    lemma_parts(x, width, len);
    lemma_block_size(width, len);
    let n = network_address(a, width, len);
    if n <= x <= last_address(a, width, len) {
        lemma_network_of_offset(n, (x - n) as nat, width, len);
    }
}

/// An address with a zero host part is the first address of its network.
pub proof fn lemma_zero_host_is_network(addr: nat, width: nat, len: nat)
    ensures
        has_zero_host_part(addr, width, len) ==> network_address(addr, width, len) == addr,
{
}

/// What a wrapping addition of `step` does to an address, in terms of its
/// parts: the sum taken modulo `2^width` has the host part
/// `(host + step) mod block`, and it wrapped or left the network exactly
/// when `host + step` reaches the block size.
pub proof fn lemma_wrapping_forward(addr: nat, width: nat, len: nat, step: nat)
    requires
        addr < pow2(width),
    ensures
        host_part((addr + step) % pow2(width), width, len) == step_forward(
            addr,
            width,
            len,
            step,
        ).0 - network_address(addr, width, len),
        (addr + step >= pow2(width) || network_address(
            (addr + step) % pow2(width),
            width,
            len,
        ) != network_address(addr, width, len)) == step_forward(addr, width, len, step).1,
        step_forward(addr, width, len, step).0 < pow2(width),
        network_address(step_forward(addr, width, len, step).0, width, len) == network_address(
            addr,
            width,
            len,
        ),
{
    let b = block_size(width, len) as int;
    let top = pow2(width) as int;
    let h = host_part(addr, width, len) as int;
    let n = network_address(addr, width, len) as int;
    let sum = (addr + step) as int;
    let res = sum % top;
    lemma_block_size(width, len);
    lemma_parts(addr, width, len);
    vstd::arithmetic::div_mod::lemma_mod_bound(sum, top);
    vstd::arithmetic::div_mod::lemma_mod_bound(h + step, b);
    // the host part of the wrapped sum
    if len <= width {
        assert(top == b * pow2(len)) by (nonlinear_arith)
            requires
                b * pow2(len) == top,
        ;
        lemma_pow2_pos(len);
        lemma_mod_mod(sum, b, pow2(len) as int);
    } else {
        assert(b == 1);
    }
    assert(res % b == sum % b);
    lemma_add_mod_noop(n, h + step, b);
    lemma_small_mod(0, b as nat);
    lemma_mod_mod_same(h + step, b);
    assert(sum % b == (h + step) % b);
    // the result stays in the network
    let r = ((h + step) % b) as nat;
    lemma_network_of_offset(n as nat, r, width, len);
    lemma_block_top(n, b, top, width, len);
    // whether the sum left the network
    if h + step < b {
        lemma_small_mod(sum as nat, top as nat);
        lemma_small_mod((h + step) as nat, b as nat);
        lemma_network_of_offset(n as nat, (h + step) as nat, width, len);
    } else if sum < top {
        lemma_small_mod(sum as nat, top as nat);
        lemma_parts(res as nat, width, len);
    }
}

/// Taking a remainder twice is taking it once.
proof fn lemma_mod_mod_same(x: int, b: int)
    requires
        b > 0,
    ensures
        (x % b) % b == x % b,
{
    vstd::arithmetic::div_mod::lemma_mod_twice(x, b);
}

/// What a wrapping subtraction of `step` does to an address, in terms of
/// its parts.
pub proof fn lemma_wrapping_backward(addr: nat, width: nat, len: nat, step: nat)
    requires
        addr < pow2(width),
    ensures
        host_part(((addr - step) % (pow2(width) as int)) as nat, width, len) == step_backward(
            addr,
            width,
            len,
            step,
        ).0 - network_address(addr, width, len),
        (step > addr || network_address(
            ((addr - step) % (pow2(width) as int)) as nat,
            width,
            len,
        ) != network_address(addr, width, len)) == step_backward(addr, width, len, step).1,
        step_backward(addr, width, len, step).0 < pow2(width),
        network_address(step_backward(addr, width, len, step).0, width, len) == network_address(
            addr,
            width,
            len,
        ),
{
    let b = block_size(width, len) as int;
    let top = pow2(width) as int;
    let h = host_part(addr, width, len) as int;
    let n = network_address(addr, width, len) as int;
    let res = (addr - step) % top;
    lemma_block_size(width, len);
    lemma_parts(addr, width, len);
    vstd::arithmetic::div_mod::lemma_mod_bound(addr - step, top);
    vstd::arithmetic::div_mod::lemma_mod_bound(h - step, b);
    if len <= width {
        assert(top == b * pow2(len)) by (nonlinear_arith)
            requires
                b * pow2(len) == top,
        ;
        lemma_pow2_pos(len);
        lemma_mod_mod(addr - step, b, pow2(len) as int);
    } else {
        assert(b == 1);
    }
    assert(res % b == (addr - step) % b);
    lemma_add_mod_noop(n, h - step, b);
    lemma_small_mod(0, b as nat);
    lemma_mod_mod_same(h - step, b);
    assert((addr - step) % b == (h - step) % b);
    let r = ((h - step) % b) as nat;
    lemma_network_of_offset(n as nat, r, width, len);
    lemma_block_top(n, b, top, width, len);
    if step <= h {
        lemma_small_mod((addr - step) as nat, top as nat);
        lemma_small_mod((h - step) as nat, b as nat);
        lemma_network_of_offset(n as nat, (h - step) as nat, width, len);
    } else if step <= addr {
        lemma_small_mod((addr - step) as nat, top as nat);
        lemma_parts(res as nat, width, len);
    }
}

} // verus!
