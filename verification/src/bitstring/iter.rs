//! Iteration over the bit strings that share a beginning.

use vstd::prelude::*;
use super::{all_set_from, successor, FixedBitString};

verus! {

/// The bit strings of a fixed length from a start on, in the order in
/// which `inc` gives them, until it overflows.
#[derive(Clone, PartialEq, Eq, Debug)]
pub struct FixedBitStringIterator<B: FixedBitString + Sized + Clone> {
    /// what comes next, if anything
    pub next: Option<B>,
    /// the number of leading bits that stay
    pub prefix: usize,
}

impl<B: FixedBitString + Sized + Clone> FixedBitStringIterator<B> {
    /// The iterator that begins with `start` and leaves its first
    /// `prefix` bits alone.
    pub fn new(start: B, prefix: usize) -> (it: Self)
        ensures
            it.next == Some(start),
            it.prefix == prefix,
    {
        FixedBitStringIterator { next: Some(start), prefix: prefix }
    }

    /// The next bit string, if any is left: a copy of the one that was
    /// next.  What comes after it is its successor, and nothing where
    /// its bits from `prefix` on are all set.
    pub fn next(&mut self) -> (result: Option<B>)
        requires
            old(self).prefix <= B::bit_count(),
        ensures
            final(self).prefix == old(self).prefix,
            old(self).next is None ==> result is None && final(self).next is None,
            old(self).next is Some ==> {
                &&& result is Some
                &&& cloned(old(self).next->Some_0, result->Some_0)
                &&& result->Some_0.bits() == old(self).next->Some_0.bits()
                &&& final(self).next is None <==> all_set_from(
                    old(self).next->Some_0.bits(),
                    old(self).prefix as int,
                )
                &&& final(self).next is Some ==> final(self).next->Some_0.bits() == successor(
                    old(self).next->Some_0.bits(),
                    old(self).prefix as int,
                )
            },
    {
        let mut overflow = false;
        let result = match &mut self.next {
            None => None,
            Some(next) => {
                let copy = next.clone();
                proof {
                    next.lemma_cloned(&copy);
                }
                overflow = next.inc(self.prefix);
                Some(copy)
            },
        };
        if overflow {
            self.next = None;
        }
        result
    }
}

} // verus!
