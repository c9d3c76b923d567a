//! The bits of a `u8`, of a `u32` and of a `u128` as sequences, the most
//! significant bit first, and what the bit operations do to them.

use vstd::prelude::*;

verus! {

/// Bit `ndx` of a u8, bit 0 being the most significant one.
pub open spec fn bit_u8(x: u8, ndx: int) -> bool {
    0 <= ndx < 8 && (x >> ((7 - ndx) as u8)) & 1 == 1
}

/// The 8 bits of a u8, the most significant one first.
pub open spec fn bits_u8(x: u8) -> Seq<bool> {
    Seq::new(8, |i: int| bit_u8(x, i))
}

/// The u8 with the bits from `ndx` on set, and no others.
pub open spec fn suffix_u8(ndx: int) -> u8 {
    if 0 <= ndx < 8 {
        u8::MAX >> (ndx as u8)
    } else {
        0
    }
}

/// The u8 with bit `ndx` set, and no other.
pub open spec fn single_u8(ndx: int) -> u8 {
    1u8 << ((7 - ndx) as u8)
}

proof fn lemma_u8_single_bv(x: u8, k: u8, j: u8)
    by (bit_vector)
    requires
        k < 8,
        j < 8,
    ensures
        (((x | (1u8 << ((7 - k) as u8))) >> ((7 - j) as u8)) & 1 == 1) == (j == k || (x >> ((
        7 - j) as u8)) & 1 == 1),
        (((x & !(1u8 << ((7 - k) as u8))) >> ((7 - j) as u8)) & 1 == 1) == (j != k && (x >> ((
        7 - j) as u8)) & 1 == 1),
        (((x ^ (1u8 << ((7 - k) as u8))) >> ((7 - j) as u8)) & 1 == 1) == ((j == k) != ((x
            >> ((7 - j) as u8)) & 1 == 1)),
{
}

proof fn lemma_u8_suffix_bv(x: u8, k: u8, j: u8)
    by (bit_vector)
    requires
        k < 8,
        j < 8,
    ensures
        (((x & !(u8::MAX >> k)) >> ((7 - j) as u8)) & 1 == 1) == (j < k && (x >> ((7
            - j) as u8)) & 1 == 1),
        (((x | (u8::MAX >> k)) >> ((7 - j) as u8)) & 1 == 1) == (j >= k || (x >> ((7
            - j) as u8)) & 1 == 1),
        (((x & 0) >> ((7 - j) as u8)) & 1 == 1) == false,
        (((x | u8::MAX) >> ((7 - j) as u8)) & 1 == 1) == true,
        (((!x) >> ((7 - j) as u8)) & 1 == 1) == !((x >> ((7 - j) as u8)) & 1 == 1),
        x & !0 == x,
        x | 0 == x,
{
}

proof fn lemma_u8_suffix_step_bv(x: u8, y: u8, k: u8)
    by (bit_vector)
    requires
        k < 8,
    ensures
        k < 7 ==> ((x & (u8::MAX >> k)) == (u8::MAX >> k)) == ((x >> ((7 - k) as u8)) & 1
            == 1 && (x & (u8::MAX >> ((k + 1) as u8))) == (u8::MAX >> ((k + 1) as u8))),
        k == 7 ==> ((x & (u8::MAX >> k)) == (u8::MAX >> k)) == ((x >> ((7 - k) as u8)) & 1
            == 1),
        k < 7 ==> ((x & !(u8::MAX >> ((k + 1) as u8))) == (y & !(u8::MAX >> ((k + 1) as u8))))
            == ((x & !(u8::MAX >> k)) == (y & !(u8::MAX >> k)) && ((x >> ((7 - k) as u8)) & 1
            == 1) == ((y >> ((7 - k) as u8)) & 1 == 1)),
        k == 7 ==> (x == y) == ((x & !(u8::MAX >> k)) == (y & !(u8::MAX >> k)) && ((x >> ((7
            - k) as u8)) & 1 == 1) == ((y >> ((7 - k) as u8)) & 1 == 1)),
        x & !(u8::MAX >> 0) == 0,
        x & 0 == 0,
{
}

/// What setting, clearing and flipping one bit does to each bit.
pub proof fn lemma_u8_single(x: u8, k: int)
    requires
        0 <= k < 8,
    ensures
        bits_u8(x | single_u8(k)) == bits_u8(x).update(k, true),
        bits_u8(x & !single_u8(k)) == bits_u8(x).update(k, false),
        bits_u8(x ^ single_u8(k)) == bits_u8(x).update(k, !bits_u8(x)[k]),
        bit_u8(x, k) == (x & single_u8(k) != 0),
{
    assert forall|j: int| 0 <= j < 8 implies #[trigger] bit_u8(x | single_u8(k), j) == (j
        == k || bit_u8(x, j)) by {
        lemma_u8_single_bv(x, k as u8, j as u8);
    }
    assert forall|j: int| 0 <= j < 8 implies #[trigger] bit_u8(x & !single_u8(k), j) == (j
        != k && bit_u8(x, j)) by {
        lemma_u8_single_bv(x, k as u8, j as u8);
    }
    assert forall|j: int| 0 <= j < 8 implies #[trigger] bit_u8(x ^ single_u8(k), j) == ((j
        == k) != bit_u8(x, j)) by {
        lemma_u8_single_bv(x, k as u8, j as u8);
    }
    assert(bits_u8(x | single_u8(k)) =~= bits_u8(x).update(k, true));
    assert(bits_u8(x & !single_u8(k)) =~= bits_u8(x).update(k, false));
    assert(bits_u8(x ^ single_u8(k)) =~= bits_u8(x).update(k, !bits_u8(x)[k]));
    lemma_u8_test_bv(x, k as u8);
}

proof fn lemma_u8_test_bv(x: u8, k: u8)
    by (bit_vector)
    requires
        k < 8,
    ensures
        ((x >> ((7 - k) as u8)) & 1 == 1) == (x & (1u8 << ((7 - k) as u8)) != 0),
{
}

/// What clearing and setting the bits from `k` on does to each bit, and
/// what the complement does.
pub proof fn lemma_u8_suffix(x: u8, k: int)
    requires
        0 <= k,
    ensures
        bits_u8(x & !suffix_u8(k)) == Seq::new(8, |j: int| j < k && bits_u8(x)[j]),
        bits_u8(x | suffix_u8(k)) == Seq::new(8, |j: int| j >= k || bits_u8(x)[j]),
        bits_u8(!x) == Seq::new(8, |j: int| !bits_u8(x)[j]),
        k >= 8 ==> x & !suffix_u8(k) == x && x | suffix_u8(k) == x,
{
    assert forall|j: int| 0 <= j < 8 implies #[trigger] bit_u8(x & !suffix_u8(k), j) == (j
        < k && bit_u8(x, j)) by {
        if k < 8 {
            lemma_u8_suffix_bv(x, k as u8, j as u8);
        } else {
            lemma_u8_suffix_bv(x, 0, j as u8);
        }
    }
    assert forall|j: int| 0 <= j < 8 implies #[trigger] bit_u8(x | suffix_u8(k), j) == (j
        >= k || bit_u8(x, j)) by {
        if k < 8 {
            lemma_u8_suffix_bv(x, k as u8, j as u8);
        } else {
            lemma_u8_suffix_bv(x, 0, j as u8);
        }
    }
    assert forall|j: int| 0 <= j < 8 implies #[trigger] bit_u8(!x, j) == !bit_u8(x, j) by {
        lemma_u8_suffix_bv(x, 0, j as u8);
    }
    lemma_u8_suffix_bv(x, 0, 0);
    assert(bits_u8(x & !suffix_u8(k)) =~= Seq::new(8, |j: int| j < k && bits_u8(x)[j]));
    assert(bits_u8(x | suffix_u8(k)) =~= Seq::new(8, |j: int| j >= k || bits_u8(x)[j]));
    assert(bits_u8(!x) =~= Seq::new(8, |j: int| !bits_u8(x)[j]));
}

/// The bits from `k` on are all set exactly when masking with them leaves
/// the mask.
pub proof fn lemma_u8_all_set_from(x: u8, k: int)
    requires
        0 <= k,
    ensures
        (x & suffix_u8(k) == suffix_u8(k)) == (forall|j: int|
            k <= j < 8 ==> bits_u8(x)[j]),
    decreases 8 - k,
{
    if k >= 8 {
        lemma_u8_suffix_step_bv(x, x, 0);
    } else {
        lemma_u8_all_set_from(x, k + 1);
        lemma_u8_suffix_step_bv(x, x, k as u8);
        assert(bits_u8(x)[k] == bit_u8(x, k));
        if forall|j: int| k <= j < 8 ==> bits_u8(x)[j] {
            assert(forall|j: int| k + 1 <= j < 8 ==> bits_u8(x)[j]);
        }
        if bits_u8(x)[k] && forall|j: int| k + 1 <= j < 8 ==> bits_u8(x)[j] {
            assert forall|j: int| k <= j < 8 implies bits_u8(x)[j] by {
                if j > k {
                    assert(k + 1 <= j);
                }
            }
        }
    }
}

/// The bits from `k` on are all clear exactly when masking with them
/// leaves nothing.
pub proof fn lemma_u8_all_clear_from(x: u8, k: int)
    requires
        0 <= k,
    ensures
        (x & suffix_u8(k) == 0) == (forall|j: int| k <= j < 8 ==> !bits_u8(x)[j]),
{
    lemma_u8_all_set_from(!x, k);
    lemma_u8_suffix(x, 0);
    lemma_u8_complement_bv(x, suffix_u8(k));
    assert forall|j: int| 0 <= j < 8 implies bits_u8(!x)[j] == !bits_u8(x)[j] by {}
}

proof fn lemma_u8_complement_bv(x: u8, m: u8)
    by (bit_vector)
    ensures
        ((!x) & m == m) == (x & m == 0),
{
}

/// Two numbers agree on their first `k` bits exactly when they are the
/// same under the mask of those bits.
pub proof fn lemma_u8_same_prefix(x: u8, y: u8, k: int)
    requires
        0 <= k <= 8,
    ensures
        (x & !suffix_u8(k) == y & !suffix_u8(k)) == (forall|j: int|
            0 <= j < k ==> bits_u8(x)[j] == bits_u8(y)[j]),
    decreases k,
{
    if k == 0 {
        lemma_u8_suffix_step_bv(x, y, 0);
        lemma_u8_suffix_step_bv(y, x, 0);
    } else {
        let p = k - 1;
        lemma_u8_same_prefix(x, y, p);
        lemma_u8_suffix_step_bv(x, y, p as u8);
        lemma_u8_suffix_bv(x, 0, 0);
        lemma_u8_suffix_bv(y, 0, 0);
        assert(bits_u8(x)[p] == bit_u8(x, p));
        assert(bits_u8(y)[p] == bit_u8(y, p));
        if forall|j: int| 0 <= j < k ==> bits_u8(x)[j] == bits_u8(y)[j] {
            assert(forall|j: int| 0 <= j < p ==> bits_u8(x)[j] == bits_u8(y)[j]);
        }
        if bits_u8(x)[p] == bits_u8(y)[p] && forall|j: int|
            0 <= j < p ==> bits_u8(x)[j] == bits_u8(y)[j] {
            assert forall|j: int| 0 <= j < k implies bits_u8(x)[j] == bits_u8(y)[j] by {
                if j < p {
                }
            }
        }
    }
}

/// Two numbers with the same bits are the same number.
pub proof fn lemma_u8_bits_injective(x: u8, y: u8)
    ensures
        bits_u8(x) == bits_u8(y) <==> x == y,
{
    if bits_u8(x) == bits_u8(y) {
        lemma_u8_same_prefix(x, y, 8);
        lemma_u8_suffix_bv(x, 0, 0);
        lemma_u8_suffix_bv(y, 0, 0);
    }
}


/// Bit `ndx` of a u32, bit 0 being the most significant one.
pub open spec fn bit_u32(x: u32, ndx: int) -> bool {
    0 <= ndx < 32 && (x >> ((31 - ndx) as u32)) & 1 == 1
}

/// The 32 bits of a u32, the most significant one first.
pub open spec fn bits_u32(x: u32) -> Seq<bool> {
    Seq::new(32, |i: int| bit_u32(x, i))
}

/// The u32 with the bits from `ndx` on set, and no others.
pub open spec fn suffix_u32(ndx: int) -> u32 {
    if 0 <= ndx < 32 {
        u32::MAX >> (ndx as u32)
    } else {
        0
    }
}

/// The u32 with bit `ndx` set, and no other.
pub open spec fn single_u32(ndx: int) -> u32 {
    1u32 << ((31 - ndx) as u32)
}

proof fn lemma_u32_single_bv(x: u32, k: u32, j: u32)
    by (bit_vector)
    requires
        k < 32,
        j < 32,
    ensures
        (((x | (1u32 << ((31 - k) as u32))) >> ((31 - j) as u32)) & 1 == 1) == (j == k || (x >> ((
        31 - j) as u32)) & 1 == 1),
        (((x & !(1u32 << ((31 - k) as u32))) >> ((31 - j) as u32)) & 1 == 1) == (j != k && (x >> ((
        31 - j) as u32)) & 1 == 1),
        (((x ^ (1u32 << ((31 - k) as u32))) >> ((31 - j) as u32)) & 1 == 1) == ((j == k) != ((x
            >> ((31 - j) as u32)) & 1 == 1)),
{
}

proof fn lemma_u32_suffix_bv(x: u32, k: u32, j: u32)
    by (bit_vector)
    requires
        k < 32,
        j < 32,
    ensures
        (((x & !(u32::MAX >> k)) >> ((31 - j) as u32)) & 1 == 1) == (j < k && (x >> ((31
            - j) as u32)) & 1 == 1),
        (((x | (u32::MAX >> k)) >> ((31 - j) as u32)) & 1 == 1) == (j >= k || (x >> ((31
            - j) as u32)) & 1 == 1),
        (((x & 0) >> ((31 - j) as u32)) & 1 == 1) == false,
        (((x | u32::MAX) >> ((31 - j) as u32)) & 1 == 1) == true,
        (((!x) >> ((31 - j) as u32)) & 1 == 1) == !((x >> ((31 - j) as u32)) & 1 == 1),
        x & !0 == x,
        x | 0 == x,
{
}

proof fn lemma_u32_suffix_step_bv(x: u32, y: u32, k: u32)
    by (bit_vector)
    requires
        k < 32,
    ensures
        k < 31 ==> ((x & (u32::MAX >> k)) == (u32::MAX >> k)) == ((x >> ((31 - k) as u32)) & 1
            == 1 && (x & (u32::MAX >> ((k + 1) as u32))) == (u32::MAX >> ((k + 1) as u32))),
        k == 31 ==> ((x & (u32::MAX >> k)) == (u32::MAX >> k)) == ((x >> ((31 - k) as u32)) & 1
            == 1),
        k < 31 ==> ((x & !(u32::MAX >> ((k + 1) as u32))) == (y & !(u32::MAX >> ((k + 1) as u32))))
            == ((x & !(u32::MAX >> k)) == (y & !(u32::MAX >> k)) && ((x >> ((31 - k) as u32)) & 1
            == 1) == ((y >> ((31 - k) as u32)) & 1 == 1)),
        k == 31 ==> (x == y) == ((x & !(u32::MAX >> k)) == (y & !(u32::MAX >> k)) && ((x >> ((31
            - k) as u32)) & 1 == 1) == ((y >> ((31 - k) as u32)) & 1 == 1)),
        x & !(u32::MAX >> 0) == 0,
        x & 0 == 0,
{
}

/// What setting, clearing and flipping one bit does to each bit.
pub proof fn lemma_u32_single(x: u32, k: int)
    requires
        0 <= k < 32,
    ensures
        bits_u32(x | single_u32(k)) == bits_u32(x).update(k, true),
        bits_u32(x & !single_u32(k)) == bits_u32(x).update(k, false),
        bits_u32(x ^ single_u32(k)) == bits_u32(x).update(k, !bits_u32(x)[k]),
        bit_u32(x, k) == (x & single_u32(k) != 0),
{
    assert forall|j: int| 0 <= j < 32 implies #[trigger] bit_u32(x | single_u32(k), j) == (j
        == k || bit_u32(x, j)) by {
        lemma_u32_single_bv(x, k as u32, j as u32);
    }
    assert forall|j: int| 0 <= j < 32 implies #[trigger] bit_u32(x & !single_u32(k), j) == (j
        != k && bit_u32(x, j)) by {
        lemma_u32_single_bv(x, k as u32, j as u32);
    }
    assert forall|j: int| 0 <= j < 32 implies #[trigger] bit_u32(x ^ single_u32(k), j) == ((j
        == k) != bit_u32(x, j)) by {
        lemma_u32_single_bv(x, k as u32, j as u32);
    }
    assert(bits_u32(x | single_u32(k)) =~= bits_u32(x).update(k, true));
    assert(bits_u32(x & !single_u32(k)) =~= bits_u32(x).update(k, false));
    assert(bits_u32(x ^ single_u32(k)) =~= bits_u32(x).update(k, !bits_u32(x)[k]));
    lemma_u32_test_bv(x, k as u32);
}

proof fn lemma_u32_test_bv(x: u32, k: u32)
    by (bit_vector)
    requires
        k < 32,
    ensures
        ((x >> ((31 - k) as u32)) & 1 == 1) == (x & (1u32 << ((31 - k) as u32)) != 0),
{
}

/// What clearing and setting the bits from `k` on does to each bit, and
/// what the complement does.
pub proof fn lemma_u32_suffix(x: u32, k: int)
    requires
        0 <= k,
    ensures
        bits_u32(x & !suffix_u32(k)) == Seq::new(32, |j: int| j < k && bits_u32(x)[j]),
        bits_u32(x | suffix_u32(k)) == Seq::new(32, |j: int| j >= k || bits_u32(x)[j]),
        bits_u32(!x) == Seq::new(32, |j: int| !bits_u32(x)[j]),
        k >= 32 ==> x & !suffix_u32(k) == x && x | suffix_u32(k) == x,
{
    assert forall|j: int| 0 <= j < 32 implies #[trigger] bit_u32(x & !suffix_u32(k), j) == (j
        < k && bit_u32(x, j)) by {
        if k < 32 {
            lemma_u32_suffix_bv(x, k as u32, j as u32);
        } else {
            lemma_u32_suffix_bv(x, 0, j as u32);
        }
    }
    assert forall|j: int| 0 <= j < 32 implies #[trigger] bit_u32(x | suffix_u32(k), j) == (j
        >= k || bit_u32(x, j)) by {
        if k < 32 {
            lemma_u32_suffix_bv(x, k as u32, j as u32);
        } else {
            lemma_u32_suffix_bv(x, 0, j as u32);
        }
    }
    assert forall|j: int| 0 <= j < 32 implies #[trigger] bit_u32(!x, j) == !bit_u32(x, j) by {
        lemma_u32_suffix_bv(x, 0, j as u32);
    }
    lemma_u32_suffix_bv(x, 0, 0);
    assert(bits_u32(x & !suffix_u32(k)) =~= Seq::new(32, |j: int| j < k && bits_u32(x)[j]));
    assert(bits_u32(x | suffix_u32(k)) =~= Seq::new(32, |j: int| j >= k || bits_u32(x)[j]));
    assert(bits_u32(!x) =~= Seq::new(32, |j: int| !bits_u32(x)[j]));
}

/// The bits from `k` on are all set exactly when masking with them leaves
/// the mask.
pub proof fn lemma_u32_all_set_from(x: u32, k: int)
    requires
        0 <= k,
    ensures
        (x & suffix_u32(k) == suffix_u32(k)) == (forall|j: int|
            k <= j < 32 ==> bits_u32(x)[j]),
    decreases 32 - k,
{
    if k >= 32 {
        lemma_u32_suffix_step_bv(x, x, 0);
    } else {
        lemma_u32_all_set_from(x, k + 1);
        lemma_u32_suffix_step_bv(x, x, k as u32);
        assert(bits_u32(x)[k] == bit_u32(x, k));
        if forall|j: int| k <= j < 32 ==> bits_u32(x)[j] {
            assert(forall|j: int| k + 1 <= j < 32 ==> bits_u32(x)[j]);
        }
        if bits_u32(x)[k] && forall|j: int| k + 1 <= j < 32 ==> bits_u32(x)[j] {
            assert forall|j: int| k <= j < 32 implies bits_u32(x)[j] by {
                if j > k {
                    assert(k + 1 <= j);
                }
            }
        }
    }
}

/// The bits from `k` on are all clear exactly when masking with them
/// leaves nothing.
pub proof fn lemma_u32_all_clear_from(x: u32, k: int)
    requires
        0 <= k,
    ensures
        (x & suffix_u32(k) == 0) == (forall|j: int| k <= j < 32 ==> !bits_u32(x)[j]),
{
    lemma_u32_all_set_from(!x, k);
    lemma_u32_suffix(x, 0);
    lemma_u32_complement_bv(x, suffix_u32(k));
    assert forall|j: int| 0 <= j < 32 implies bits_u32(!x)[j] == !bits_u32(x)[j] by {}
}

proof fn lemma_u32_complement_bv(x: u32, m: u32)
    by (bit_vector)
    ensures
        ((!x) & m == m) == (x & m == 0),
{
}

/// Two numbers agree on their first `k` bits exactly when they are the
/// same under the mask of those bits.
pub proof fn lemma_u32_same_prefix(x: u32, y: u32, k: int)
    requires
        0 <= k <= 32,
    ensures
        (x & !suffix_u32(k) == y & !suffix_u32(k)) == (forall|j: int|
            0 <= j < k ==> bits_u32(x)[j] == bits_u32(y)[j]),
    decreases k,
{
    if k == 0 {
        lemma_u32_suffix_step_bv(x, y, 0);
        lemma_u32_suffix_step_bv(y, x, 0);
    } else {
        let p = k - 1;
        lemma_u32_same_prefix(x, y, p);
        lemma_u32_suffix_step_bv(x, y, p as u32);
        lemma_u32_suffix_bv(x, 0, 0);
        lemma_u32_suffix_bv(y, 0, 0);
        assert(bits_u32(x)[p] == bit_u32(x, p));
        assert(bits_u32(y)[p] == bit_u32(y, p));
        if forall|j: int| 0 <= j < k ==> bits_u32(x)[j] == bits_u32(y)[j] {
            assert(forall|j: int| 0 <= j < p ==> bits_u32(x)[j] == bits_u32(y)[j]);
        }
        if bits_u32(x)[p] == bits_u32(y)[p] && forall|j: int|
            0 <= j < p ==> bits_u32(x)[j] == bits_u32(y)[j] {
            assert forall|j: int| 0 <= j < k implies bits_u32(x)[j] == bits_u32(y)[j] by {
                if j < p {
                }
            }
        }
    }
}

/// Two numbers with the same bits are the same number.
pub proof fn lemma_u32_bits_injective(x: u32, y: u32)
    ensures
        bits_u32(x) == bits_u32(y) <==> x == y,
{
    if bits_u32(x) == bits_u32(y) {
        lemma_u32_same_prefix(x, y, 32);
        lemma_u32_suffix_bv(x, 0, 0);
        lemma_u32_suffix_bv(y, 0, 0);
    }
}

proof fn lemma_u32_order_bv(x: u32, y: u32, i: u32)
    by (bit_vector)
    requires
        i < 32,
        (x & !(u32::MAX >> i)) == (y & !(u32::MAX >> i)),
        (x >> ((31 - i) as u32)) & 1 != 1,
        (y >> ((31 - i) as u32)) & 1 == 1,
    ensures
        x < y,
{
}

/// Of two numbers that agree on their first `i` bits and differ in bit
/// `i`, the one in which that bit is set is the greater one.
pub proof fn lemma_u32_compare(x: u32, y: u32, i: int)
    requires
        0 <= i < 32,
        forall|j: int| 0 <= j < i ==> bits_u32(x)[j] == bits_u32(y)[j],
        bits_u32(x)[i] != bits_u32(y)[i],
    ensures
        (x < y) == bits_u32(y)[i],
        (x > y) == bits_u32(x)[i],
{
    lemma_u32_same_prefix(x, y, i);
    if bits_u32(y)[i] {
        lemma_u32_order_bv(x, y, i as u32);
    } else {
        lemma_u32_order_bv(y, x, i as u32);
    }
}

/// Bit `ndx` of a u128, bit 0 being the most significant one.
pub open spec fn bit_u128(x: u128, ndx: int) -> bool {
    0 <= ndx < 128 && (x >> ((127 - ndx) as u128)) & 1 == 1
}

/// The 128 bits of a u128, the most significant one first.
pub open spec fn bits_u128(x: u128) -> Seq<bool> {
    Seq::new(128, |i: int| bit_u128(x, i))
}

/// The u128 with the bits from `ndx` on set, and no others.
pub open spec fn suffix_u128(ndx: int) -> u128 {
    if 0 <= ndx < 128 {
        u128::MAX >> (ndx as u128)
    } else {
        0
    }
}

/// The u128 with bit `ndx` set, and no other.
pub open spec fn single_u128(ndx: int) -> u128 {
    1u128 << ((127 - ndx) as u128)
}

proof fn lemma_u128_single_bv(x: u128, k: u128, j: u128)
    by (bit_vector)
    requires
        k < 128,
        j < 128,
    ensures
        (((x | (1u128 << ((127 - k) as u128))) >> ((127 - j) as u128)) & 1 == 1) == (j == k || (x >> ((
        127 - j) as u128)) & 1 == 1),
        (((x & !(1u128 << ((127 - k) as u128))) >> ((127 - j) as u128)) & 1 == 1) == (j != k && (x >> ((
        127 - j) as u128)) & 1 == 1),
        (((x ^ (1u128 << ((127 - k) as u128))) >> ((127 - j) as u128)) & 1 == 1) == ((j == k) != ((x
            >> ((127 - j) as u128)) & 1 == 1)),
{
}

proof fn lemma_u128_suffix_bv(x: u128, k: u128, j: u128)
    by (bit_vector)
    requires
        k < 128,
        j < 128,
    ensures
        (((x & !(u128::MAX >> k)) >> ((127 - j) as u128)) & 1 == 1) == (j < k && (x >> ((127
            - j) as u128)) & 1 == 1),
        (((x | (u128::MAX >> k)) >> ((127 - j) as u128)) & 1 == 1) == (j >= k || (x >> ((127
            - j) as u128)) & 1 == 1),
        (((x & 0) >> ((127 - j) as u128)) & 1 == 1) == false,
        (((x | u128::MAX) >> ((127 - j) as u128)) & 1 == 1) == true,
        (((!x) >> ((127 - j) as u128)) & 1 == 1) == !((x >> ((127 - j) as u128)) & 1 == 1),
        x & !0 == x,
        x | 0 == x,
{
}

proof fn lemma_u128_suffix_step_bv(x: u128, y: u128, k: u128)
    by (bit_vector)
    requires
        k < 128,
    ensures
        k < 127 ==> ((x & (u128::MAX >> k)) == (u128::MAX >> k)) == ((x >> ((127 - k) as u128)) & 1
            == 1 && (x & (u128::MAX >> ((k + 1) as u128))) == (u128::MAX >> ((k + 1) as u128))),
        k == 127 ==> ((x & (u128::MAX >> k)) == (u128::MAX >> k)) == ((x >> ((127 - k) as u128)) & 1
            == 1),
        k < 127 ==> ((x & !(u128::MAX >> ((k + 1) as u128))) == (y & !(u128::MAX >> ((k + 1) as u128))))
            == ((x & !(u128::MAX >> k)) == (y & !(u128::MAX >> k)) && ((x >> ((127 - k) as u128)) & 1
            == 1) == ((y >> ((127 - k) as u128)) & 1 == 1)),
        k == 127 ==> (x == y) == ((x & !(u128::MAX >> k)) == (y & !(u128::MAX >> k)) && ((x >> ((127
            - k) as u128)) & 1 == 1) == ((y >> ((127 - k) as u128)) & 1 == 1)),
        x & !(u128::MAX >> 0) == 0,
        x & 0 == 0,
{
}

/// What setting, clearing and flipping one bit does to each bit.
pub proof fn lemma_u128_single(x: u128, k: int)
    requires
        0 <= k < 128,
    ensures
        bits_u128(x | single_u128(k)) == bits_u128(x).update(k, true),
        bits_u128(x & !single_u128(k)) == bits_u128(x).update(k, false),
        bits_u128(x ^ single_u128(k)) == bits_u128(x).update(k, !bits_u128(x)[k]),
        bit_u128(x, k) == (x & single_u128(k) != 0),
{
    assert forall|j: int| 0 <= j < 128 implies #[trigger] bit_u128(x | single_u128(k), j) == (j
        == k || bit_u128(x, j)) by {
        lemma_u128_single_bv(x, k as u128, j as u128);
    }
    assert forall|j: int| 0 <= j < 128 implies #[trigger] bit_u128(x & !single_u128(k), j) == (j
        != k && bit_u128(x, j)) by {
        lemma_u128_single_bv(x, k as u128, j as u128);
    }
    assert forall|j: int| 0 <= j < 128 implies #[trigger] bit_u128(x ^ single_u128(k), j) == ((j
        == k) != bit_u128(x, j)) by {
        lemma_u128_single_bv(x, k as u128, j as u128);
    }
    assert(bits_u128(x | single_u128(k)) =~= bits_u128(x).update(k, true));
    assert(bits_u128(x & !single_u128(k)) =~= bits_u128(x).update(k, false));
    assert(bits_u128(x ^ single_u128(k)) =~= bits_u128(x).update(k, !bits_u128(x)[k]));
    lemma_u128_test_bv(x, k as u128);
}

proof fn lemma_u128_test_bv(x: u128, k: u128)
    by (bit_vector)
    requires
        k < 128,
    ensures
        ((x >> ((127 - k) as u128)) & 1 == 1) == (x & (1u128 << ((127 - k) as u128)) != 0),
{
}

/// What clearing and setting the bits from `k` on does to each bit, and
/// what the complement does.
pub proof fn lemma_u128_suffix(x: u128, k: int)
    requires
        0 <= k,
    ensures
        bits_u128(x & !suffix_u128(k)) == Seq::new(128, |j: int| j < k && bits_u128(x)[j]),
        bits_u128(x | suffix_u128(k)) == Seq::new(128, |j: int| j >= k || bits_u128(x)[j]),
        bits_u128(!x) == Seq::new(128, |j: int| !bits_u128(x)[j]),
        k >= 128 ==> x & !suffix_u128(k) == x && x | suffix_u128(k) == x,
{
    assert forall|j: int| 0 <= j < 128 implies #[trigger] bit_u128(x & !suffix_u128(k), j) == (j
        < k && bit_u128(x, j)) by {
        if k < 128 {
            lemma_u128_suffix_bv(x, k as u128, j as u128);
        } else {
            lemma_u128_suffix_bv(x, 0, j as u128);
        }
    }
    assert forall|j: int| 0 <= j < 128 implies #[trigger] bit_u128(x | suffix_u128(k), j) == (j
        >= k || bit_u128(x, j)) by {
        if k < 128 {
            lemma_u128_suffix_bv(x, k as u128, j as u128);
        } else {
            lemma_u128_suffix_bv(x, 0, j as u128);
        }
    }
    assert forall|j: int| 0 <= j < 128 implies #[trigger] bit_u128(!x, j) == !bit_u128(x, j) by {
        lemma_u128_suffix_bv(x, 0, j as u128);
    }
    lemma_u128_suffix_bv(x, 0, 0);
    assert(bits_u128(x & !suffix_u128(k)) =~= Seq::new(128, |j: int| j < k && bits_u128(x)[j]));
    assert(bits_u128(x | suffix_u128(k)) =~= Seq::new(128, |j: int| j >= k || bits_u128(x)[j]));
    assert(bits_u128(!x) =~= Seq::new(128, |j: int| !bits_u128(x)[j]));
}

/// The bits from `k` on are all set exactly when masking with them leaves
/// the mask.
pub proof fn lemma_u128_all_set_from(x: u128, k: int)
    requires
        0 <= k,
    ensures
        (x & suffix_u128(k) == suffix_u128(k)) == (forall|j: int|
            k <= j < 128 ==> bits_u128(x)[j]),
    decreases 128 - k,
{
    if k >= 128 {
        lemma_u128_suffix_step_bv(x, x, 0);
    } else {
        lemma_u128_all_set_from(x, k + 1);
        lemma_u128_suffix_step_bv(x, x, k as u128);
        assert(bits_u128(x)[k] == bit_u128(x, k));
        if forall|j: int| k <= j < 128 ==> bits_u128(x)[j] {
            assert(forall|j: int| k + 1 <= j < 128 ==> bits_u128(x)[j]);
        }
        if bits_u128(x)[k] && forall|j: int| k + 1 <= j < 128 ==> bits_u128(x)[j] {
            assert forall|j: int| k <= j < 128 implies bits_u128(x)[j] by {
                if j > k {
                    assert(k + 1 <= j);
                }
            }
        }
    }
}

/// The bits from `k` on are all clear exactly when masking with them
/// leaves nothing.
pub proof fn lemma_u128_all_clear_from(x: u128, k: int)
    requires
        0 <= k,
    ensures
        (x & suffix_u128(k) == 0) == (forall|j: int| k <= j < 128 ==> !bits_u128(x)[j]),
{
    lemma_u128_all_set_from(!x, k);
    lemma_u128_suffix(x, 0);
    lemma_u128_complement_bv(x, suffix_u128(k));
    assert forall|j: int| 0 <= j < 128 implies bits_u128(!x)[j] == !bits_u128(x)[j] by {}
}

proof fn lemma_u128_complement_bv(x: u128, m: u128)
    by (bit_vector)
    ensures
        ((!x) & m == m) == (x & m == 0),
{
}

/// Two numbers agree on their first `k` bits exactly when they are the
/// same under the mask of those bits.
pub proof fn lemma_u128_same_prefix(x: u128, y: u128, k: int)
    requires
        0 <= k <= 128,
    ensures
        (x & !suffix_u128(k) == y & !suffix_u128(k)) == (forall|j: int|
            0 <= j < k ==> bits_u128(x)[j] == bits_u128(y)[j]),
    decreases k,
{
    if k == 0 {
        lemma_u128_suffix_step_bv(x, y, 0);
        lemma_u128_suffix_step_bv(y, x, 0);
    } else {
        let p = k - 1;
        lemma_u128_same_prefix(x, y, p);
        lemma_u128_suffix_step_bv(x, y, p as u128);
        lemma_u128_suffix_bv(x, 0, 0);
        lemma_u128_suffix_bv(y, 0, 0);
        assert(bits_u128(x)[p] == bit_u128(x, p));
        assert(bits_u128(y)[p] == bit_u128(y, p));
        if forall|j: int| 0 <= j < k ==> bits_u128(x)[j] == bits_u128(y)[j] {
            assert(forall|j: int| 0 <= j < p ==> bits_u128(x)[j] == bits_u128(y)[j]);
        }
        if bits_u128(x)[p] == bits_u128(y)[p] && forall|j: int|
            0 <= j < p ==> bits_u128(x)[j] == bits_u128(y)[j] {
            assert forall|j: int| 0 <= j < k implies bits_u128(x)[j] == bits_u128(y)[j] by {
                if j < p {
                }
            }
        }
    }
}

/// Two numbers with the same bits are the same number.
pub proof fn lemma_u128_bits_injective(x: u128, y: u128)
    ensures
        bits_u128(x) == bits_u128(y) <==> x == y,
{
    if bits_u128(x) == bits_u128(y) {
        lemma_u128_same_prefix(x, y, 128);
        lemma_u128_suffix_bv(x, 0, 0);
        lemma_u128_suffix_bv(y, 0, 0);
    }
}

proof fn lemma_u128_order_bv(x: u128, y: u128, i: u128)
    by (bit_vector)
    requires
        i < 128,
        (x & !(u128::MAX >> i)) == (y & !(u128::MAX >> i)),
        (x >> ((127 - i) as u128)) & 1 != 1,
        (y >> ((127 - i) as u128)) & 1 == 1,
    ensures
        x < y,
{
}

/// Of two numbers that agree on their first `i` bits and differ in bit
/// `i`, the one in which that bit is set is the greater one.
pub proof fn lemma_u128_compare(x: u128, y: u128, i: int)
    requires
        0 <= i < 128,
        forall|j: int| 0 <= j < i ==> bits_u128(x)[j] == bits_u128(y)[j],
        bits_u128(x)[i] != bits_u128(y)[i],
    ensures
        (x < y) == bits_u128(y)[i],
        (x > y) == bits_u128(x)[i],
{
    lemma_u128_same_prefix(x, y, i);
    if bits_u128(y)[i] {
        lemma_u128_order_bv(x, y, i as u128);
    } else {
        lemma_u128_order_bv(y, x, i as u128);
    }
}

} // verus!
