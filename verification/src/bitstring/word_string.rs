//! Bit strings that are the beginning of a bit string of a fixed length.

use vstd::prelude::*;
use super::{cleared_from, same_prefix, BitString, FixedBitString};

verus! {

/// The first `len` bits of `bitwords`.
#[derive(Debug)]
pub struct BitWordString<W: FixedBitString + Sized + Clone> {
    /// the storage of the bits
    pub bitwords: W,
    /// the number of bits
    pub len: usize,
}

impl<W: FixedBitString + Clone> Clone for BitWordString<W> {
    /// A copy: a copy of the storage, and the same number of bits.
    fn clone(&self) -> (copy: Self)
        ensures
            copy.len == self.len,
            cloned(self.bitwords, copy.bitwords),
    {
        BitWordString { bitwords: self.bitwords.clone(), len: self.len }
    }
}

impl<W: FixedBitString + Clone> BitWordString<W> {
    /// Whether `word` begins with this bit string.
    pub fn contains(&self, word: &W) -> (b: bool)
        requires
            self.len <= W::bit_count(),
        ensures
            b == same_prefix(self.bitwords.bits(), word.bits(), self.len as int),
    {
        self.bitwords.contains(self.len, word)
    }
}

impl<W: FixedBitString + Clone> BitString for BitWordString<W> {
    open spec fn bits(&self) -> Seq<bool> {
        self.bitwords.bits().take(self.len as int)
    }

    open spec fn wf(&self) -> bool {
        self.len <= W::bit_count()
    }

    open spec fn can_grow(&self) -> bool {
        self.len < W::bit_count() && self.len < usize::MAX
    }

    proof fn lemma_cloned(&self, copy: &Self) {
        assert(cloned::<BitWordString<W>>(*self, *copy));
        if *self != *copy {
            self.bitwords.lemma_cloned(&copy.bitwords);
        }
    }

    fn get(&self, ndx: usize) -> (bit: bool) {
        proof {
            self.bitwords.lemma_bit_count();
        }
        self.bitwords.get(ndx)
    }

    fn set(&mut self, ndx: usize, bit: bool)
        ensures
            final(self).len == old(self).len,
            final(self).bitwords.bits() == old(self).bitwords.bits().update(ndx as int, bit),
    {
        proof {
            self.bitwords.lemma_bit_count();
        }
        self.bitwords.set(ndx, bit);
        proof {
            self.bitwords.lemma_bit_count();
            assert(self.bits() =~= old(self).bits().update(ndx as int, bit));
        }
    }

    fn flip(&mut self, ndx: usize)
        ensures
            final(self).len == old(self).len,
            final(self).bitwords.bits() == old(self).bitwords.bits().update(
                ndx as int,
                !old(self).bitwords.bits()[ndx as int],
            ),
    {
        proof {
            self.bitwords.lemma_bit_count();
        }
        self.bitwords.flip(ndx);
        proof {
            self.bitwords.lemma_bit_count();
            assert(self.bits() =~= old(self).bits().update(
                ndx as int,
                !old(self).bits()[ndx as int],
            ));
        }
    }

    fn len(&self) -> (len: usize) {
        proof {
            self.bitwords.lemma_bit_count();
        }
        self.len
    }

    fn clip(&mut self, len: usize)
        ensures
            final(self).len == if old(self).len < len {
                old(self).len
            } else {
                len
            },
            final(self).bitwords.bits() == cleared_from(old(self).bitwords.bits(), len as int),
    {
        proof {
            self.bitwords.lemma_bit_count();
        }
        self.bitwords.zeroesfrom(len);
        self.len = if self.len < len {
            self.len
        } else {
            len
        };
        proof {
            self.bitwords.lemma_bit_count();
            if len < old(self).len {
                assert(self.bits() =~= old(self).bits().take(len as int));
            } else {
                assert(self.bits() =~= old(self).bits());
            }
        }
    }

    fn append(&mut self, bit: bool)
        ensures
            final(self).len == old(self).len + 1,
            final(self).bitwords.bits() == old(self).bitwords.bits().update(
                old(self).len as int,
                bit,
            ),
    {
        proof {
            self.bitwords.lemma_bit_count();
        }
        self.bitwords.set(self.len, bit);
        self.len += 1;
        proof {
            self.bitwords.lemma_bit_count();
            assert(self.bits() =~= old(self).bits().push(bit));
        }
    }

    fn null() -> (null: Self)
        ensures
            null.len == 0,
            null.bitwords.bits() == Seq::new(W::bit_count(), |j: int| false),
    {
        let null = BitWordString { bitwords: W::all_zeroes(), len: 0 };
        proof {
            assert(null.bits() =~= Seq::<bool>::empty());
        }
        null
    }
}

} // verus!
