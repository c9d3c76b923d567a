//! Slices of unsigned integers as bit strings: the bits of the elements
//! one after the other, the most significant bit of each first.

use vstd::prelude::*;
use crate::bit_seq::{
    bits_u8,
    lemma_u8_all_clear_from,
    lemma_u8_all_set_from,
    lemma_u8_same_prefix,
    lemma_u8_single,
    lemma_u8_suffix,
    single_u8,
    suffix_u8,
};
use crate::bitstring::{
    all_clear_from,
    all_set_from,
    cleared_from,
    same_prefix,
    set_from,
    successor,
};

verus! {

/// The bits of a sequence of bytes.
pub open spec fn slice_bits(s: Seq<u8>) -> Seq<bool> {
    Seq::new(8 * s.len(), |i: int| bits_u8(s[i / 8])[i % 8])
}

/// Manipulate bit strings in form of slices of unsigned integers.
pub trait BigEndianManipulation: Sized {
    /// The number of bits of a single element.
    spec fn spec_elembits() -> nat;

    /// The bits of a sequence of elements.
    spec fn bits(slice: Seq<Self>) -> Seq<bool>;

    /// A sequence of elements has the bits of all its elements.
    proof fn lemma_bits_len(slice: Seq<Self>)
        ensures
            Self::bits(slice).len() == Self::spec_elembits() * slice.len(),
            Self::spec_elembits() > 0,
    ;

    /// Bit count of single element.
    fn elembits() -> (bits: usize)
        ensures
            bits == Self::spec_elembits(),
    ;

    /// Integer with single bit set. Bit 0 is the highest bit (big endian);
    /// the index wraps at the number of bits of an element.
    fn mask(ndx: usize) -> (mask: Self)
        ensures
            Self::bits(seq![mask]) == Seq::new(
                Self::spec_elembits(),
                |j: int| j == ndx as int % Self::spec_elembits() as int,
            ),
    ;

    /// Increment from right; don't touch first `prefix` bits; returns
    /// true on overflow.
    fn inc(slice: &mut [Self], prefix: usize) -> (overflow: bool)
        requires
            prefix <= Self::bits(old(slice)@).len() <= usize::MAX,
        ensures
            final(slice)@.len() == old(slice)@.len(),
            Self::bits(final(slice)@) == successor(Self::bits(old(slice)@), prefix as int),
            overflow == all_set_from(Self::bits(old(slice)@), prefix as int),
    ;

    /// Bit `ndx`.
    fn get(slice: &[Self], ndx: usize) -> (bit: bool)
        requires
            ndx < Self::bits(slice@).len(),
        ensures
            bit == Self::bits(slice@)[ndx as int],
    ;

    /// Makes bit `ndx` be `bit`.
    fn set(slice: &mut [Self], ndx: usize, bit: bool)
        requires
            ndx < Self::bits(old(slice)@).len(),
        ensures
            final(slice)@.len() == old(slice)@.len(),
            Self::bits(final(slice)@) == Self::bits(old(slice)@).update(ndx as int, bit),
    {
        if bit {
            Self::on(slice, ndx)
        } else {
            Self::off(slice, ndx)
        }
    }

    /// Sets bit `ndx`.
    fn on(slice: &mut [Self], ndx: usize)
        requires
            ndx < Self::bits(old(slice)@).len(),
        ensures
            final(slice)@.len() == old(slice)@.len(),
            Self::bits(final(slice)@) == Self::bits(old(slice)@).update(ndx as int, true),
    ;

    /// Clears bit `ndx`.
    fn off(slice: &mut [Self], ndx: usize)
        requires
            ndx < Self::bits(old(slice)@).len(),
        ensures
            final(slice)@.len() == old(slice)@.len(),
            Self::bits(final(slice)@) == Self::bits(old(slice)@).update(ndx as int, false),
    ;

    /// Turns bit `ndx` into the other bit.
    fn flip(slice: &mut [Self], ndx: usize)
        requires
            ndx < Self::bits(old(slice)@).len(),
        ensures
            final(slice)@.len() == old(slice)@.len(),
            Self::bits(final(slice)@) == Self::bits(old(slice)@).update(
                ndx as int,
                !Self::bits(old(slice)@)[ndx as int],
            ),
    ;

    /// Set all bits to zero from certain (including) index.
    fn zeroesfrom(slice: &mut [Self], ndx: usize)
        ensures
            final(slice)@.len() == old(slice)@.len(),
            Self::bits(final(slice)@) == cleared_from(Self::bits(old(slice)@), ndx as int),
    ;

    /// Whether `zeroesfrom` wouldn't change anything.
    fn is_zeroesfrom(slice: &[Self], ndx: usize) -> (b: bool)
        ensures
            b == all_clear_from(Self::bits(slice@), ndx as int),
    ;

    /// Set all bits to one from certain (including) index.
    fn onesfrom(slice: &mut [Self], ndx: usize)
        ensures
            final(slice)@.len() == old(slice)@.len(),
            Self::bits(final(slice)@) == set_from(Self::bits(old(slice)@), ndx as int),
    ;

    /// Whether `onesfrom` wouldn't change anything.
    fn is_onesfrom(slice: &[Self], ndx: usize) -> (b: bool)
        ensures
            b == all_set_from(Self::bits(slice@), ndx as int),
    ;

    /// Whether `other` has the same first `prefix` bits.
    fn contains(slice: &[Self], prefix: usize, other: &[Self]) -> (b: bool)
        requires
            prefix <= Self::bits(slice@).len(),
            prefix <= Self::bits(other@).len(),
        ensures
            b == same_prefix(Self::bits(slice@), Self::bits(other@), prefix as int),
    ;
}

proof fn lemma_u8_masks_bv(k: u8)
    by (bit_vector)
    requires
        1 <= k < 8,
    ensures
        ((1u8 << ((7 - (k - 1)) as u8)) - 1) as u8 == u8::MAX >> k,
        (1u8 << ((7 - (k - 1)) as u8)) >= 1,
{
}

/// The bits of the bytes with one byte replaced: those of the other bytes
/// as they were, and those of the new byte in its place.
proof fn lemma_update_bits(s: Seq<u8>, e: int, v: u8)
    requires
        0 <= e < s.len(),
    ensures
        slice_bits(s.update(e, v)) == Seq::new(
            8 * s.len(),
            |i: int|
                if i / 8 == e {
                    bits_u8(v)[i % 8]
                } else {
                    slice_bits(s)[i]
                },
        ),
{
    assert(slice_bits(s.update(e, v)) =~= Seq::new(
        8 * s.len(),
        |i: int|
            if i / 8 == e {
                bits_u8(v)[i % 8]
            } else {
                slice_bits(s)[i]
            },
    ));
}

impl BigEndianManipulation for u8 {
    open spec fn spec_elembits() -> nat {
        8
    }

    open spec fn bits(slice: Seq<u8>) -> Seq<bool> {
        slice_bits(slice)
    }

    proof fn lemma_bits_len(slice: Seq<u8>) {
    }

    fn elembits() -> (bits: usize) {
        proof {
            // by the definition for `u8`
            assert(u8::spec_elembits() == 8);
        }
        8
    }

    fn mask(ndx: usize) -> (mask: u8) {
        let bits = Self::elembits();
        let bit_ndx = (bits - 1 - (ndx % bits)) as u8;
        proof {
            let k = (ndx % 8) as int;
            lemma_u8_single(0, k);
            lemma_u8_all_clear_from(0, 0);
            lemma_u8_zero_bv(0);
            lemma_u8_zero_bv(single_u8(k));
            assert(1u8 << bit_ndx == single_u8(k));
            assert(bits_u8(0) =~= Seq::new(8, |j: int| false));
            assert(slice_bits(seq![single_u8(k)]) =~= Seq::new(8, |j: int| j == k));
        }
        1 << bit_ndx
    }

    fn inc(slice: &mut [u8], prefix: usize) -> (overflow: bool) {
        let ghost before = slice_bits(slice@);
        let n = slice.len() * 8;
        let mut p = n;
        while p > prefix
            invariant
                prefix <= p <= n,
                n == 8 * slice@.len(),
                slice@ == old(slice)@,
                before == slice_bits(slice@),
                forall|j: int| p <= j < n ==> before[j],
            decreases p,
        {
            p -= 1;
            if !Self::get(slice, p) {
                Self::zeroesfrom(slice, p + 1);
                Self::on(slice, p);
                proof {
                    assert forall|j: int| 0 <= j < n implies slice_bits(slice@)[j] == successor(
                        before,
                        prefix as int,
                    )[j] by {
                        if j > p {
                            assert(all_set_from(before, j + 1));
                        } else if j == p {
                            assert(all_set_from(before, j + 1));
                        } else {
                            assert(!before[p as int]);
                            assert(!all_set_from(before, j + 1));
                        }
                    }
                    assert(slice_bits(slice@) =~= successor(before, prefix as int));
                    assert(!before[p as int]);
                }
                return false;
            }
        }
        Self::zeroesfrom(slice, prefix);
        proof {
            assert forall|j: int| 0 <= j < n implies slice_bits(slice@)[j] == successor(
                before,
                prefix as int,
            )[j] by {
                if j >= prefix {
                    assert(all_set_from(before, j + 1));
                }
            }
            assert(slice_bits(slice@) =~= successor(before, prefix as int));
        }
        true
    }

    fn get(slice: &[u8], ndx: usize) -> (bit: bool) {
        let mask = Self::mask(ndx);
        let slice_ndx = ndx / Self::elembits();
        proof {
            lemma_mask_is_single(mask, ndx);
            lemma_u8_single(slice@[slice_ndx as int], (ndx % 8) as int);
        }
        0 != (slice[slice_ndx] & mask)
    }

    fn on(slice: &mut [u8], ndx: usize) {
        let mask = Self::mask(ndx);
        let slice_ndx = ndx / Self::elembits();
        proof {
            lemma_mask_is_single(mask, ndx);
            lemma_u8_single(slice@[slice_ndx as int], (ndx % 8) as int);
            lemma_update_bits(slice@, slice_ndx as int, slice@[slice_ndx as int] | mask);
        }
        slice[slice_ndx] = slice[slice_ndx] | mask;
        proof {
            assert(slice_bits(slice@) =~= slice_bits(old(slice)@).update(ndx as int, true));
        }
    }

    fn off(slice: &mut [u8], ndx: usize) {
        let mask = Self::mask(ndx);
        let slice_ndx = ndx / Self::elembits();
        proof {
            lemma_mask_is_single(mask, ndx);
            lemma_u8_single(slice@[slice_ndx as int], (ndx % 8) as int);
            lemma_update_bits(slice@, slice_ndx as int, slice@[slice_ndx as int] & !mask);
        }
        slice[slice_ndx] = slice[slice_ndx] & !mask;
        proof {
            assert(slice_bits(slice@) =~= slice_bits(old(slice)@).update(ndx as int, false));
        }
    }

    fn flip(slice: &mut [u8], ndx: usize) {
        let mask = Self::mask(ndx);
        let slice_ndx = ndx / Self::elembits();
        proof {
            lemma_mask_is_single(mask, ndx);
            lemma_u8_single(slice@[slice_ndx as int], (ndx % 8) as int);
            lemma_update_bits(slice@, slice_ndx as int, slice@[slice_ndx as int] ^ mask);
        }
        slice[slice_ndx] = slice[slice_ndx] ^ mask;
        proof {
            assert(slice_bits(slice@) =~= slice_bits(old(slice)@).update(
                ndx as int,
                !slice_bits(old(slice)@)[ndx as int],
            ));
        }
    }

    fn zeroesfrom(slice: &mut [u8], ndx: usize) {
        let slice_ndx = ndx / Self::elembits();
        let ghost before = slice@;
        let mut first = slice_ndx;
        if 0 != ndx % Self::elembits() && slice_ndx < slice.len() {
            let single = Self::mask(ndx - 1);
            proof {
                lemma_mask_is_single(single, (ndx - 1) as usize);
                lemma_u8_masks_bv((ndx % 8) as u8);
            }
            let mask = single - 1;
            proof {
                assert(mask == suffix_u8((ndx % 8) as int));
                lemma_u8_suffix(slice@[slice_ndx as int], (ndx % 8) as int);
            }
            slice[slice_ndx] = slice[slice_ndx] & !mask;
            first = slice_ndx + 1;
        }
        let mut i = first;
        while i < slice.len()
            invariant
                slice@.len() == before.len(),
                first <= i,
                slice_ndx <= first <= slice_ndx + 1,
                forall|j: int| 0 <= j < slice_ndx ==> slice@[j] == before[j],
                first == slice_ndx + 1 ==> slice_ndx < before.len() && bits_u8(
                    slice@[slice_ndx as int],
                ) == Seq::new(8, |j: int| j < ndx % 8 && bits_u8(before[slice_ndx as int])[j]),
                first == slice_ndx ==> ndx % 8 == 0 || slice_ndx >= before.len(),
                forall|j: int| first <= j < i && j < slice@.len() ==> slice@[j] == 0,
                forall|j: int| i <= j < slice@.len() ==> slice@[j] == before[j],
            decreases slice@.len() - i,
        {
            slice[i] = 0;
            i += 1;
        }
        proof {
            lemma_u8_all_clear_from(0, 0);
            lemma_u8_zero_bv(0);
            assert forall|p: int| 0 <= p < 8 * before.len() implies slice_bits(slice@)[p]
                == cleared_from(slice_bits(before), ndx as int)[p] by {
                let e = p / 8;
                if e < slice_ndx {
                } else if e == slice_ndx && first == slice_ndx + 1 {
                } else {
                    assert(slice@[e] == 0);
                    assert(!bits_u8(0)[p % 8]);
                }
            }
            assert(slice_bits(slice@) =~= cleared_from(slice_bits(before), ndx as int));
        }
    }

    fn is_zeroesfrom(slice: &[u8], ndx: usize) -> (b: bool) {
        let slice_ndx = ndx / Self::elembits();
        let mut first = slice_ndx;
        if 0 != ndx % Self::elembits() && slice_ndx < slice.len() {
            let single = Self::mask(ndx - 1);
            proof {
                lemma_mask_is_single(single, (ndx - 1) as usize);
                lemma_u8_masks_bv((ndx % 8) as u8);
            }
            let mask = single - 1;
            proof {
                assert(mask == suffix_u8((ndx % 8) as int));
                lemma_u8_all_clear_from(slice@[slice_ndx as int], (ndx % 8) as int);
            }
            if 0 != slice[slice_ndx] & mask {
                proof {
                    let x = slice@[slice_ndx as int];
                    let j = choose|j: int| ndx % 8 <= j < 8 && bits_u8(x)[j];
                    assert(slice_bits(slice@)[8 * slice_ndx + j]);
                }
                return false;
            }
            first = slice_ndx + 1;
        }
        let mut i = first;
        while i < slice.len()
            invariant
                first <= i,
                slice_ndx == ndx / 8,
                slice_ndx <= first <= slice_ndx + 1,
                first == slice_ndx + 1 ==> slice_ndx < slice@.len() && forall|j: int|
                    ndx % 8 <= j < 8 ==> !bits_u8(slice@[slice_ndx as int])[j],
                first == slice_ndx ==> ndx % 8 == 0 || slice_ndx >= slice@.len(),
                forall|j: int| first <= j < i && j < slice@.len() ==> slice@[j] == 0,
            decreases slice@.len() - i,
        {
            if 0 != slice[i] {
                proof {
                    let x = slice@[i as int];
                    lemma_u8_all_clear_from(x, 0);
                    lemma_u8_zero_bv(x);
                    let j = choose|j: int| 0 <= j < 8 && bits_u8(x)[j];
                    assert(slice_bits(slice@)[8 * i + j]);
                }
                return false;
            }
            i += 1;
        }
        proof {
            lemma_u8_all_clear_from(0, 0);
            lemma_u8_zero_bv(0);
            assert forall|p: int| ndx <= p < 8 * slice@.len() implies !slice_bits(slice@)[p] by {
                let e = p / 8;
                if e == slice_ndx && first == slice_ndx + 1 {
                } else {
                    assert(slice@[e] == 0);
                    assert(!bits_u8(0)[p % 8]);
                }
            }
        }
        true
    }

    fn onesfrom(slice: &mut [u8], ndx: usize) {
        let slice_ndx = ndx / Self::elembits();
        let ghost before = slice@;
        let mut first = slice_ndx;
        if 0 != ndx % Self::elembits() && slice_ndx < slice.len() {
            let single = Self::mask(ndx - 1);
            proof {
                lemma_mask_is_single(single, (ndx - 1) as usize);
                lemma_u8_masks_bv((ndx % 8) as u8);
            }
            let mask = single - 1;
            proof {
                assert(mask == suffix_u8((ndx % 8) as int));
                lemma_u8_suffix(slice@[slice_ndx as int], (ndx % 8) as int);
            }
            slice[slice_ndx] = slice[slice_ndx] | mask;
            first = slice_ndx + 1;
        }
        let mut i = first;
        while i < slice.len()
            invariant
                slice@.len() == before.len(),
                first <= i,
                slice_ndx <= first <= slice_ndx + 1,
                forall|j: int| 0 <= j < slice_ndx ==> slice@[j] == before[j],
                first == slice_ndx + 1 ==> slice_ndx < before.len() && bits_u8(
                    slice@[slice_ndx as int],
                ) == Seq::new(8, |j: int| j >= ndx % 8 || bits_u8(before[slice_ndx as int])[j]),
                first == slice_ndx ==> ndx % 8 == 0 || slice_ndx >= before.len(),
                forall|j: int| first <= j < i && j < slice@.len() ==> slice@[j] == 0xff,
                forall|j: int| i <= j < slice@.len() ==> slice@[j] == before[j],
            decreases slice@.len() - i,
        {
            slice[i] = !0;
            proof {
                lemma_u8_zero_bv(0);
            }
            i += 1;
        }
        proof {
            lemma_u8_all_set_from(0xff, 0);
            lemma_u8_zero_bv(0xff);
            assert forall|p: int| 0 <= p < 8 * before.len() implies slice_bits(slice@)[p]
                == set_from(slice_bits(before), ndx as int)[p] by {
                let e = p / 8;
                if e < slice_ndx {
                } else if e == slice_ndx && first == slice_ndx + 1 {
                } else {
                    assert(slice@[e] == 0xff);
                    assert(bits_u8(0xff)[p % 8]);
                }
            }
            assert(slice_bits(slice@) =~= set_from(slice_bits(before), ndx as int));
        }
    }

    fn is_onesfrom(slice: &[u8], ndx: usize) -> (b: bool) {
        let slice_ndx = ndx / Self::elembits();
        let mut first = slice_ndx;
        if 0 != ndx % Self::elembits() && slice_ndx < slice.len() {
            let single = Self::mask(ndx - 1);
            proof {
                lemma_mask_is_single(single, (ndx - 1) as usize);
                lemma_u8_masks_bv((ndx % 8) as u8);
            }
            let mask = single - 1;
            proof {
                assert(mask == suffix_u8((ndx % 8) as int));
                lemma_u8_all_set_from(slice@[slice_ndx as int], (ndx % 8) as int);
                lemma_u8_ones_bv(slice@[slice_ndx as int], mask);
            }
            if slice[slice_ndx] | !mask != !0 {
                proof {
                    let x = slice@[slice_ndx as int];
                    let j = choose|j: int| ndx % 8 <= j < 8 && !bits_u8(x)[j];
                    assert(!slice_bits(slice@)[8 * slice_ndx + j]);
                }
                return false;
            }
            first = slice_ndx + 1;
        }
        let mut i = first;
        while i < slice.len()
            invariant
                first <= i,
                slice_ndx == ndx / 8,
                slice_ndx <= first <= slice_ndx + 1,
                first == slice_ndx + 1 ==> slice_ndx < slice@.len() && forall|j: int|
                    ndx % 8 <= j < 8 ==> bits_u8(slice@[slice_ndx as int])[j],
                first == slice_ndx ==> ndx % 8 == 0 || slice_ndx >= slice@.len(),
                forall|j: int| first <= j < i && j < slice@.len() ==> slice@[j] == 0xff,
            decreases slice@.len() - i,
        {
            proof {
                lemma_u8_zero_bv(0);
            }
            if slice[i] != !0 {
                proof {
                    let x = slice@[i as int];
                    lemma_u8_all_set_from(x, 0);
                    lemma_u8_zero_bv(x);
                    let j = choose|j: int| 0 <= j < 8 && !bits_u8(x)[j];
                    assert(!slice_bits(slice@)[8 * i + j]);
                }
                return false;
            }
            i += 1;
        }
        proof {
            lemma_u8_all_set_from(0xff, 0);
            lemma_u8_zero_bv(0xff);
            assert forall|p: int| ndx <= p < 8 * slice@.len() implies slice_bits(slice@)[p] by {
                let e = p / 8;
                if e == slice_ndx && first == slice_ndx + 1 {
                } else {
                    assert(slice@[e] == 0xff);
                    assert(bits_u8(0xff)[p % 8]);
                }
            }
        }
        true
    }

    fn contains(slice: &[u8], prefix: usize, other: &[u8]) -> (b: bool) {
        let slice_ndx = prefix / Self::elembits();
        let mut i: usize = 0;
        while i < slice_ndx
            invariant
                i <= slice_ndx,
                slice_ndx == prefix / 8,
                prefix <= 8 * slice@.len(),
                prefix <= 8 * other@.len(),
                forall|j: int| 0 <= j < i ==> slice@[j] == other@[j],
            decreases slice_ndx - i,
        {
            if slice[i] != other[i] {
                proof {
                    let x = slice@[i as int];
                    let y = other@[i as int];
                    crate::bit_seq::lemma_u8_bits_injective(x, y);
                    assert(!(bits_u8(x) =~= bits_u8(y)));
                    let j = choose|j: int| 0 <= j < 8 && bits_u8(x)[j] != bits_u8(y)[j];
                    assert(slice_bits(slice@)[8 * i + j] != slice_bits(other@)[8 * i + j]);
                }
                return false;
            }
            i += 1;
        }
        if 0 == prefix % Self::elembits() {
            proof {
                assert forall|p: int| 0 <= p < prefix implies slice_bits(slice@)[p] == slice_bits(
                    other@,
                )[p] by {
                    assert(slice@[p / 8] == other@[p / 8]);
                }
            }
            return true;
        }
        let single = Self::mask(prefix - 1);
        proof {
            lemma_mask_is_single(single, (prefix - 1) as usize);
            lemma_u8_masks_bv((prefix % 8) as u8);
        }
        let mask = !(single - 1);
        proof {
            let x = slice@[slice_ndx as int];
            let y = other@[slice_ndx as int];
            lemma_u8_same_prefix(x, y, (prefix % 8) as int);
            lemma_u8_xor_bv(x, y, mask);
            if x & mask == y & mask {
                assert forall|p: int| 0 <= p < prefix implies slice_bits(slice@)[p] == slice_bits(
                    other@,
                )[p] by {
                    if p / 8 < slice_ndx {
                        assert(slice@[p / 8] == other@[p / 8]);
                    }
                }
            } else {
                let j = choose|j: int| 0 <= j < prefix % 8 && bits_u8(x)[j] != bits_u8(y)[j];
                assert(slice_bits(slice@)[8 * slice_ndx + j] != slice_bits(other@)[8 * slice_ndx
                    + j]);
            }
        }
        0 == mask & (slice[slice_ndx] ^ other[slice_ndx])
    }
}

/// The mask of a bit is the byte in which that bit alone is set.
proof fn lemma_mask_is_single(mask: u8, ndx: usize)
    requires
        slice_bits(seq![mask]) == Seq::new(8, |j: int| j == ndx as int % 8),
    ensures
        mask == single_u8((ndx % 8) as int),
{
    let s = single_u8((ndx % 8) as int);
    lemma_u8_single(0, (ndx % 8) as int);
    lemma_u8_all_clear_from(0, 0);
    lemma_u8_zero_bv(0);
    lemma_u8_zero_bv(s);
    assert forall|j: int| 0 <= j < 8 implies bits_u8(mask)[j] == bits_u8(s)[j] by {
        assert(slice_bits(seq![mask])[j] == bits_u8(mask)[j]);
    }
    assert(bits_u8(mask) =~= bits_u8(s));
    crate::bit_seq::lemma_u8_bits_injective(mask, s);
}

proof fn lemma_u8_zero_bv(x: u8)
    by (bit_vector)
    ensures
        x & (u8::MAX >> 0) == x,
        u8::MAX >> 0 == u8::MAX,
        u8::MAX & x == x,
        0u8 | x == x,
        !0u8 == 0xffu8,
{
}

proof fn lemma_u8_ones_bv(x: u8, m: u8)
    by (bit_vector)
    ensures
        (x | !m == !0u8) == (x & m == m),
{
}

proof fn lemma_u8_xor_bv(x: u8, y: u8, m: u8)
    by (bit_vector)
    ensures
        (0 == m & (x ^ y)) == (x & m == y & m),
{
}

} // verus!
