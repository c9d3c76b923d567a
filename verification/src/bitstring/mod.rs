//! Bit strings: values that are sequences of bits, of a fixed length or
//! of a length of their own.

pub mod address;
pub mod iter;
pub mod word_string;

use vstd::prelude::*;
use core::cmp::Ordering;
pub use self::iter::FixedBitStringIterator;
pub use self::word_string::BitWordString;

verus! {

/// Whether all the bits of `s` from `from` on are set.
pub open spec fn all_set_from(s: Seq<bool>, from: int) -> bool {
    forall|j: int| from <= j < s.len() ==> s[j]
}

/// Whether all the bits of `s` from `from` on are clear.
pub open spec fn all_clear_from(s: Seq<bool>, from: int) -> bool {
    forall|j: int| from <= j < s.len() ==> !s[j]
}

/// Whether `s` and `t` have the same first `len` bits.
pub open spec fn same_prefix(s: Seq<bool>, t: Seq<bool>, len: int) -> bool {
    forall|j: int| 0 <= j < len ==> s[j] == t[j]
}

/// `s` with the bits from `from` on cleared.
pub open spec fn cleared_from(s: Seq<bool>, from: int) -> Seq<bool> {
    Seq::new(s.len(), |j: int| j < from && s[j])
}

/// `s` with the bits from `from` on set.
pub open spec fn set_from(s: Seq<bool>, from: int) -> Seq<bool> {
    Seq::new(s.len(), |j: int| j >= from || s[j])
}

/// The bit string that follows `s` when the bits from `prefix` on are
/// counted up by one as a binary number whose last bit counts least: a bit
/// changes exactly when all the bits after it are set.  After the string
/// whose bits from `prefix` on are all set comes the one where they are
/// all clear.
pub open spec fn successor(s: Seq<bool>, prefix: int) -> Seq<bool> {
    Seq::new(s.len(), |j: int| if j < prefix { s[j] } else { s[j] != all_set_from(s, j + 1) })
}

/// The number of leading bits that `s` and `t` share.
pub open spec fn common_prefix_len(s: Seq<bool>, t: Seq<bool>) -> int
    decreases s.len(),
{
    if s.len() == 0 || t.len() == 0 || s[0] != t[0] {
        0
    } else {
        1 + common_prefix_len(s.skip(1), t.skip(1))
    }
}

/// How `s` compares with `t` where every bit string comes before those
/// that it is a beginning of, and a clear bit before a set one.
pub open spec fn lexicographic_order(s: Seq<bool>, t: Seq<bool>) -> Ordering {
    let spl = common_prefix_len(s, t);
    if spl == s.len() {
        if spl == t.len() {
            Ordering::Equal
        } else {
            Ordering::Less
        }
    } else if spl == t.len() {
        Ordering::Greater
    } else if s[spl] {
        Ordering::Greater
    } else {
        Ordering::Less
    }
}

/// How `s` compares with `t` as sets of the bit strings that begin with
/// them: the longer string is the smaller set, and two strings compare
/// only where one is a beginning of the other.
pub open spec fn subset_order(s: Seq<bool>, t: Seq<bool>) -> Option<Ordering> {
    let spl = common_prefix_len(s, t);
    if spl == s.len() {
        if spl == t.len() {
            Some(Ordering::Equal)
        } else {
            Some(Ordering::Greater)
        }
    } else if spl == t.len() {
        Some(Ordering::Less)
    } else {
        None
    }
}

/// The shared leading bits are shared, and the bit after them is not.
pub proof fn lemma_common_prefix_len(s: Seq<bool>, t: Seq<bool>)
    ensures
        common_prefix_len(s, t) <= s.len(),
        common_prefix_len(s, t) <= t.len(),
        0 <= common_prefix_len(s, t),
        same_prefix(s, t, common_prefix_len(s, t)),
        common_prefix_len(s, t) < s.len() && common_prefix_len(s, t) < t.len() ==> s[common_prefix_len(
            s,
            t,
        )] != t[common_prefix_len(s, t)],
    decreases s.len(),
{
    if s.len() == 0 || t.len() == 0 || s[0] != t[0] {
    } else {
        lemma_common_prefix_len(s.skip(1), t.skip(1));
        let n = common_prefix_len(s.skip(1), t.skip(1));
        assert forall|j: int| 0 <= j < n + 1 implies s[j] == t[j] by {
            if j > 0 {
                assert(s.skip(1)[j - 1] == s[j]);
                assert(t.skip(1)[j - 1] == t[j]);
            }
        }
        if n < s.len() - 1 && n < t.len() - 1 {
            assert(s.skip(1)[n] == s[n + 1]);
            assert(t.skip(1)[n] == t[n + 1]);
        }
    }
}

/// A number of shared leading bits that cannot be extended is the number
/// of leading bits that the two strings share.
pub proof fn lemma_common_prefix_len_is(s: Seq<bool>, t: Seq<bool>, n: int)
    requires
        0 <= n <= s.len(),
        n <= t.len(),
        same_prefix(s, t, n),
        n < s.len() && n < t.len() ==> s[n] != t[n],
    ensures
        common_prefix_len(s, t) == n,
    decreases s.len(),
{
    if n == 0 {
    } else {
        assert(s[0] == t[0]);
        assert forall|j: int| 0 <= j < n - 1 implies s.skip(1)[j] == t.skip(1)[j] by {
            assert(s[j + 1] == t[j + 1]);
        }
        lemma_common_prefix_len_is(s.skip(1), t.skip(1), n - 1);
    }
}

/// A bit string of a fixed length.
pub trait FixedBitString: Sized + Clone {
    /// The bits of the value, the first one first.
    spec fn bits(&self) -> Seq<bool>;

    /// The number of bits that every value has.
    spec fn bit_count() -> nat;

    /// Every value has as many bits as the type has.
    proof fn lemma_bit_count(&self)
        ensures
            self.bits().len() == Self::bit_count(),
    ;

    /// A copy of a value has the bits of the value.
    proof fn lemma_cloned(&self, copy: &Self)
        requires
            cloned(*self, *copy),
        ensures
            copy.bits() == self.bits(),
    ;

    /// Increment from the end; don't touch the first `prefix` bits;
    /// returns true on overflow.
    fn inc(&mut self, prefix: usize) -> (overflow: bool)
        requires
            prefix <= Self::bit_count(),
        ensures
            final(self).bits() == successor(old(self).bits(), prefix as int),
            overflow == all_set_from(old(self).bits(), prefix as int),
    ;

    /// The values from this one on that share its first `prefix` bits.
    fn iter(&self, prefix: usize) -> (it: FixedBitStringIterator<Self>)
        requires
            prefix <= Self::bit_count(),
        ensures
            it.prefix == prefix,
            it.next is Some,
            cloned(*self, it.next->Some_0),
            it.next->Some_0.bits() == self.bits(),
    {
        let start = self.clone();
        proof {
            self.lemma_cloned(&start);
        }
        FixedBitStringIterator { next: Some(start), prefix }
    }

    /// Bit `ndx`.
    fn get(&self, ndx: usize) -> (bit: bool)
        requires
            ndx < Self::bit_count(),
        ensures
            bit == self.bits()[ndx as int],
    ;

    /// Makes bit `ndx` be `bit`.
    fn set(&mut self, ndx: usize, bit: bool)
        requires
            ndx < Self::bit_count(),
        ensures
            final(self).bits() == old(self).bits().update(ndx as int, bit),
    ;

    /// Sets bit `ndx`.
    fn on(&mut self, ndx: usize)
        requires
            ndx < Self::bit_count(),
        ensures
            final(self).bits() == old(self).bits().update(ndx as int, true),
    ;

    /// Clears bit `ndx`.
    fn off(&mut self, ndx: usize)
        requires
            ndx < Self::bit_count(),
        ensures
            final(self).bits() == old(self).bits().update(ndx as int, false),
    ;

    /// Turns bit `ndx` into the other bit.
    fn flip(&mut self, ndx: usize)
        requires
            ndx < Self::bit_count(),
        ensures
            final(self).bits() == old(self).bits().update(
                ndx as int,
                !old(self).bits()[ndx as int],
            ),
    ;

    /// Clears all the bits from `ndx` on.
    fn zeroesfrom(&mut self, ndx: usize)
        ensures
            final(self).bits() == cleared_from(old(self).bits(), ndx as int),
    ;

    /// Whether `zeroesfrom` wouldn't change anything.
    fn is_zeroesfrom(&self, ndx: usize) -> (b: bool)
        ensures
            b == all_clear_from(self.bits(), ndx as int),
    ;

    /// Sets all the bits from `ndx` on.
    fn onesfrom(&mut self, ndx: usize)
        ensures
            final(self).bits() == set_from(old(self).bits(), ndx as int),
    ;

    /// Whether `onesfrom` wouldn't change anything.
    fn is_onesfrom(&self, ndx: usize) -> (b: bool)
        ensures
            b == all_set_from(self.bits(), ndx as int),
    ;

    /// The value with all bits clear.
    fn all_zeroes() -> (zeroes: Self)
        ensures
            zeroes.bits() == Seq::new(Self::bit_count(), |j: int| false),
    ;

    /// The value with all bits set.
    fn all_ones() -> (ones: Self)
        ensures
            ones.bits() == Seq::new(Self::bit_count(), |j: int| true),
    ;

    /// Whether `other` has the same first `prefix` bits.
    fn contains(&self, prefix: usize, other: &Self) -> (b: bool)
        requires
            prefix <= Self::bit_count(),
        ensures
            b == same_prefix(self.bits(), other.bits(), prefix as int),
    ;
}

/// A bit string with a length of its own.
pub trait BitString: Sized + Clone {
    /// The bits of the string, the first one first.
    spec fn bits(&self) -> Seq<bool>;

    /// What the functions of this trait ask of a value and keep.
    spec fn wf(&self) -> bool;

    /// Whether the string has room for one more bit.
    spec fn can_grow(&self) -> bool;

    /// A copy of a string is a string with the same bits.
    proof fn lemma_cloned(&self, copy: &Self)
        requires
            cloned(*self, *copy),
            self.wf(),
        ensures
            copy.wf(),
            copy.bits() == self.bits(),
    ;

    /// Bit `ndx`.
    fn get(&self, ndx: usize) -> (bit: bool)
        requires
            self.wf(),
            ndx < self.bits().len(),
        ensures
            bit == self.bits()[ndx as int],
    ;

    /// Makes bit `ndx` be `bit`.
    fn set(&mut self, ndx: usize, bit: bool)
        requires
            old(self).wf(),
            ndx < old(self).bits().len(),
        ensures
            final(self).wf(),
            final(self).bits() == old(self).bits().update(ndx as int, bit),
    ;

    /// Turns bit `ndx` into the other bit.
    fn flip(&mut self, ndx: usize)
        requires
            old(self).wf(),
            ndx < old(self).bits().len(),
        ensures
            final(self).wf(),
            final(self).bits() == old(self).bits().update(
                ndx as int,
                !old(self).bits()[ndx as int],
            ),
    ;

    /// The number of bits.
    fn len(&self) -> (len: usize)
        requires
            self.wf(),
        ensures
            len == self.bits().len(),
    ;

    /// Drops all the bits from bit `len` on, if there are any.
    fn clip(&mut self, len: usize)
        requires
            old(self).wf(),
        ensures
            final(self).wf(),
            len < old(self).bits().len() ==> final(self).bits() == old(self).bits().take(len as int),
            len >= old(self).bits().len() ==> final(self).bits() == old(self).bits(),
    ;

    /// Adds a bit at the end.
    fn append(&mut self, bit: bool)
        requires
            old(self).wf(),
            old(self).can_grow(),
        ensures
            final(self).wf(),
            final(self).bits() == old(self).bits().push(bit),
    ;

    /// The string without bits.
    fn null() -> (null: Self)
        ensures
            null.wf(),
            null.bits() == Seq::<bool>::empty(),
    ;

    /// The number of leading bits that the two strings share.
    fn shared_prefix_len(&self, other: &Self) -> (len: usize)
        requires
            self.wf(),
            other.wf(),
        ensures
            len == common_prefix_len(self.bits(), other.bits()),
    {
        let self_len = self.len();
        let other_len = other.len();
        let max_len = if self_len < other_len {
            self_len
        } else {
            other_len
        };
        let mut i: usize = 0;
        while i < max_len
            invariant
                self.wf(),
                other.wf(),
                i <= max_len,
                max_len <= self.bits().len(),
                max_len <= other.bits().len(),
                max_len == self.bits().len() || max_len == other.bits().len(),
                same_prefix(self.bits(), other.bits(), i as int),
            decreases max_len - i,
        {
            if self.get(i) != other.get(i) {
                proof {
                    lemma_common_prefix_len_is(self.bits(), other.bits(), i as int);
                }
                return i;
            }
            i += 1;
        }
        proof {
            lemma_common_prefix_len_is(self.bits(), other.bits(), max_len as int);
        }
        max_len
    }

    /// The leading bits that the two strings share, as a string: a copy of
    /// this string, cut after them.
    fn shared_prefix(&self, other: &Self) -> (prefix: Self)
        requires
            self.wf(),
            other.wf(),
        ensures
            prefix.wf(),
            prefix.bits() == self.bits().take(common_prefix_len(self.bits(), other.bits())),
    {
        let mut a = self.clone();
        let len = self.shared_prefix_len(other);
        proof {
            self.lemma_cloned(&a);
            lemma_common_prefix_len(self.bits(), other.bits());
            assert(self.bits().take(self.bits().len() as int) =~= self.bits());
        }
        a.clip(len);
        a
    }

    /// Compares the two strings as sets of the bit strings that begin
    /// with them: it is `Less` where this string is the longer one and
    /// begins with `other`, and `None` where neither begins with the other.
    fn bitstring_subset_cmp(&self, other: &Self) -> (o: Option<Ordering>)
        requires
            self.wf(),
            other.wf(),
        ensures
            o == subset_order(self.bits(), other.bits()),
    {
        let spl = self.shared_prefix_len(other);
        if spl == self.len() {
            // self is a prefix of other
            if spl == other.len() {
                Some(Ordering::Equal)
            } else {
                Some(Ordering::Greater)
            }
        } else if spl == other.len() {
            // other is a prefix of self
            Some(Ordering::Less)
        } else {
            // neither is a prefix of the other one
            None
        }
    }

    /// Compares the two strings bit by bit: a string comes before those
    /// that it is a beginning of, and a clear bit before a set one.
    fn bitstring_lexicographic_cmp(&self, other: &Self) -> (o: Ordering)
        requires
            self.wf(),
            other.wf(),
        ensures
            o == lexicographic_order(self.bits(), other.bits()),
    {
        let spl = self.shared_prefix_len(other);
        proof {
            lemma_common_prefix_len(self.bits(), other.bits());
        }
        if spl == self.len() {
            // self is a prefix of other
            if spl == other.len() {
                Ordering::Equal
            } else {
                // self is shorter than other
                Ordering::Less
            }
        } else if spl == other.len() {
            // other is a prefix of self and shorter
            Ordering::Greater
        } else {
            // both are at least one bit longer than the shared prefix,
            // and they differ in that bit (otherwise shared prefix
            // would be longer)
            if self.get(spl) {
                Ordering::Greater
            } else {
                Ordering::Less
            }
        }
    }
}

} // verus!
