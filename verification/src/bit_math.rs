//! Lemmas that tie the bit operations on `u32` and `u128` to arithmetic
//! with powers of two.

use vstd::prelude::*;
use vstd::arithmetic::div_mod::{lemma_fundamental_div_mod_converse, lemma_mod_breakdown};
use vstd::arithmetic::power2::{
    lemma2_to64,
    lemma_pow2_adds,
    lemma_pow2_pos,
    lemma_pow2_strictly_increases,
    lemma_pow2_unfold,
    pow2,
};

verus! {

/// The number whose `h` lowest bits are set and no others: `2^h - 1`.
pub open spec fn low_mask(h: nat) -> nat {
    (pow2(h) - 1) as nat
}

/// The two address widths as powers of two.
pub proof fn lemma_pow2_widths()
    ensures
        pow2(0) == 1,
        pow2(8) == 0x100,
        pow2(16) == 0x1_0000,
        pow2(24) == 0x100_0000,
        pow2(32) == 0x1_0000_0000,
        pow2(32) == u32::MAX + 1,
        pow2(64) == 0x1_0000_0000_0000_0000,
        pow2(128) == 0x1_0000_0000_0000_0000_0000_0000_0000_0000,
        pow2(128) == u128::MAX + 1,
{
    lemma2_to64();
    lemma_pow2_adds(64, 64);
}

/// `2^h` is positive and at most `2^w` when `h <= w`.
pub proof fn lemma_pow2_bounded(h: nat, w: nat)
    requires
        h <= w,
    ensures
        0 < pow2(h) <= pow2(w),
{
    lemma_pow2_pos(h);
    if h < w {
        lemma_pow2_strictly_increases(h, w);
    }
}

proof fn lemma_u32_and_odd(a: u32, m: u32)
    by (bit_vector)
    requires
        m <= 0x7fff_ffffu32,
    ensures
        a & ((2 * m + 1) as u32) == 2 * ((a >> 1) & m) + (a & 1),
        a >> 1 == a / 2,
        a & 1 == a % 2,
        a & 0 == 0,
{
}

proof fn lemma_u128_and_odd(a: u128, m: u128)
    by (bit_vector)
    requires
        m <= 0x7fff_ffff_ffff_ffff_ffff_ffff_ffff_ffffu128,
    ensures
        a & ((2 * m + 1) as u128) == 2 * ((a >> 1) & m) + (a & 1),
        a >> 1 == a / 2,
        a & 1 == a % 2,
        a & 0 == 0,
{
}

/// Masking a `u32` with `2^h - 1` leaves the remainder modulo `2^h`.
pub proof fn lemma_u32_and_low_mask(a: u32, h: nat)
    requires
        h <= 32,
    ensures
        low_mask(h) <= u32::MAX,
        a & (low_mask(h) as u32) == a as nat % pow2(h),
    decreases h,
{
    lemma_pow2_widths();
    lemma_pow2_bounded(h, 32);
    if h == 0 {
        lemma_u32_and_odd(a, 0);
    } else {
        let g = (h - 1) as nat;
        lemma_pow2_unfold(h);
        lemma_pow2_pos(g);
        let m = low_mask(g) as u32;
        lemma_u32_and_low_mask(a / 2, g);
        lemma_u32_and_odd(a, m);
        lemma_mod_breakdown(a as int, 2, pow2(g) as int);
    }
}

/// Masking a `u128` with `2^h - 1` leaves the remainder modulo `2^h`.
pub proof fn lemma_u128_and_low_mask(a: u128, h: nat)
    requires
        h <= 128,
    ensures
        low_mask(h) <= u128::MAX,
        a & (low_mask(h) as u128) == a as nat % pow2(h),
    decreases h,
{
    lemma_pow2_widths();
    lemma_pow2_bounded(h, 128);
    if h == 0 {
        lemma_u128_and_odd(a, 0);
    } else {
        let g = (h - 1) as nat;
        lemma_pow2_unfold(h);
        lemma_pow2_pos(g);
        let m = low_mask(g) as u128;
        lemma_u128_and_low_mask(a / 2, g);
        lemma_u128_and_odd(a, m);
        lemma_mod_breakdown(a as int, 2, pow2(g) as int);
    }
}

proof fn lemma_u32_mask_ops(a: u32, b: u32, m: u32)
    by (bit_vector)
    ensures
        a & !m == a - (a & m),
        a | m == a - (a & m) + m,
        !m == 0xffff_ffff - m,
        (a & m) | (b & !m) == (a & m) + (b & !m),
{
}

proof fn lemma_u128_mask_ops(a: u128, b: u128, m: u128)
    by (bit_vector)
    ensures
        a & !m == a - (a & m),
        a | m == a - (a & m) + m,
        !m == 0xffff_ffff_ffff_ffff_ffff_ffff_ffff_ffff - m,
        (a & m) | (b & !m) == (a & m) + (b & !m),
{
}

/// The quotient of `2^w - 1` by `2^s` is `2^(w - s) - 1`.
proof fn lemma_all_ones_shifted(w: nat, s: nat)
    requires
        s <= w,
    ensures
        (pow2(w) - 1) / (pow2(s) as int) == pow2((w - s) as nat) - 1,
{
    let d = pow2(s) as int;
    let q = pow2((w - s) as nat) - 1;
    lemma_pow2_pos(s);
    lemma_pow2_pos((w - s) as nat);
    lemma_pow2_adds((w - s) as nat, s);
    assert(pow2(w) - 1 == q * d + (d - 1)) by (nonlinear_arith)
        requires
            (q + 1) * d == pow2(w),
    ;
    lemma_fundamental_div_mod_converse(pow2(w) - 1, d, q, d - 1);
}

/// Shifting the largest `u32` right by `s` bits leaves the `32 - s` lowest
/// bits set.
pub proof fn lemma_u32_shifted_ones(s: u32)
    requires
        s < 32,
    ensures
        (u32::MAX >> s) as nat == low_mask((32 - s) as nat),
{
    lemma_pow2_widths();
    vstd::bits::lemma_u32_shr_is_div(u32::MAX, s);
    lemma_all_ones_shifted(32, s as nat);
    lemma_pow2_pos(s as nat);
}

/// Shifting the largest `u128` right by `s` bits leaves the `128 - s`
/// lowest bits set.
pub proof fn lemma_u128_shifted_ones(s: u128)
    requires
        s < 128,
    ensures
        (u128::MAX >> s) as nat == low_mask((128 - s) as nat),
{
    lemma_pow2_widths();
    vstd::bits::lemma_u128_shr_is_div(u128::MAX, s);
    lemma_all_ones_shifted(128, s as nat);
    lemma_pow2_pos(s as nat);
}

/// The bit operations with the mask `m = 2^h - 1` on a `u32`, as arithmetic.
pub proof fn lemma_u32_low_mask_ops(a: u32, b: u32, m: u32, h: nat)
    requires
        h <= 32,
        m as nat == low_mask(h),
    ensures
        (a & m) as nat == a as nat % pow2(h),
        (a & !m) as nat == a as nat - a as nat % pow2(h),
        (a | m) as nat == a as nat - a as nat % pow2(h) + low_mask(h),
        (!m) as nat == pow2(32) - pow2(h),
        ((a & m) | (b & !m)) as nat == a as nat % pow2(h) + (b as nat - b as nat % pow2(h)),
{
    lemma_pow2_widths();
    lemma_pow2_pos(h);
    lemma_u32_and_low_mask(a, h);
    lemma_u32_and_low_mask(b, h);
    lemma_u32_mask_ops(a, b, m);
    lemma_u32_mask_ops(b, a, m);
}

/// The mask of the bits of a `u32` from `k` on is the mask of the host bits
/// of a network of length `k`.
pub proof fn lemma_u32_suffix_is_mask(k: int)
    requires
        0 <= k,
    ensures
        crate::bit_seq::suffix_u32(k) as nat == crate::prefix_math::host_mask(32, k as nat),
{
    lemma_pow2_widths();
    if k < 32 {
        lemma_u32_shifted_ones(k as u32);
    }
}

/// The mask of the bits of a `u128` from `k` on is the mask of the host
/// bits of a network of length `k`.
pub proof fn lemma_u128_suffix_is_mask(k: int)
    requires
        0 <= k,
    ensures
        crate::bit_seq::suffix_u128(k) as nat == crate::prefix_math::host_mask(128, k as nat),
{
    lemma_pow2_widths();
    if k < 128 {
        lemma_u128_shifted_ones(k as u128);
    }
}

/// The host part of a `u32` is zero exactly when its bits from the network
/// length on are clear.
pub proof fn lemma_u32_host_part_bits(a: u32, len: nat)
    ensures
        crate::prefix_math::has_zero_host_part(a as nat, 32, len) <==> (forall|j: int|
            len <= j < 32 ==> !crate::bit_seq::bits_u32(a)[j]),
{
    lemma_u32_suffix_is_mask(len as int);
    lemma_u32_low_mask_ops(
        a,
        0,
        crate::bit_seq::suffix_u32(len as int),
        crate::prefix_math::host_bits(32, len),
    );
    crate::bit_seq::lemma_u32_all_clear_from(a, len as int);
}

/// The host part of a `u128` is zero exactly when its bits from the
/// network length on are clear.
pub proof fn lemma_u128_host_part_bits(a: u128, len: nat)
    ensures
        crate::prefix_math::has_zero_host_part(a as nat, 128, len) <==> (forall|j: int|
            len <= j < 128 ==> !crate::bit_seq::bits_u128(a)[j]),
{
    lemma_u128_suffix_is_mask(len as int);
    lemma_u128_low_mask_ops(
        a,
        0,
        crate::bit_seq::suffix_u128(len as int),
        crate::prefix_math::host_bits(128, len),
    );
    crate::bit_seq::lemma_u128_all_clear_from(a, len as int);
}

/// The bit operations with the mask `m = 2^h - 1` on a `u128`, as arithmetic.
pub proof fn lemma_u128_low_mask_ops(a: u128, b: u128, m: u128, h: nat)
    requires
        h <= 128,
        m as nat == low_mask(h),
    ensures
        (a & m) as nat == a as nat % pow2(h),
        (a & !m) as nat == a as nat - a as nat % pow2(h),
        (a | m) as nat == a as nat - a as nat % pow2(h) + low_mask(h),
        (!m) as nat == pow2(128) - pow2(h),
        ((a & m) | (b & !m)) as nat == a as nat % pow2(h) + (b as nat - b as nat % pow2(h)),
{
    lemma_pow2_widths();
    lemma_pow2_pos(h);
    lemma_u128_and_low_mask(a, h);
    lemma_u128_and_low_mask(b, h);
    lemma_u128_mask_ops(a, b, m);
    lemma_u128_mask_ops(b, a, m);
}

} // verus!
