//! Iteration over the hosts of a network or of a range.

use vstd::prelude::*;
use crate::family::Family;
use crate::internal_traits::{PrivInet, PrivInetPair, PrivUnspecAddress};
use crate::num::NumberOfAddresses;
use crate::prefix_math::{span_hosts, Prefix};
use crate::traits::{Address, Inet, InetPair};

verus! {

/// Iterator type to iterate over a list of IP addresses within a network.
///
/// It yields hosts from both ends, and nothing once the two ends have met.
#[derive(Clone, Copy, Debug)]
pub struct InetIterator<A: Address> {
    pub(crate) state: Option<A::InetPair>,
}

impl<A: Address> InetIterator<A> {
    /// The hosts that are still to come, in order, as numbers.
    pub open(crate) spec fn remaining(&self) -> Seq<Prefix> {
        match self.state {
            Some(pair) => span_hosts(pair._span()),
            None => Seq::empty(),
        }
    }

    /// The family of the hosts that are still to come.
    pub open(crate) spec fn family(&self) -> Family {
        self.state->Some_0._family()
    }

    pub(crate) fn _new(range_pair: A::InetPair) -> (it: Self)
        ensures
            it.remaining() == span_hosts(range_pair._span()),
            it.family() == range_pair._family(),
    {
        InetIterator { state: Some(range_pair) }
    }

    /// The next host from the front, if any is left.
    pub fn next(&mut self) -> (r: Option<A::Inet>)
        ensures
            old(self).remaining().len() == 0 ==> r is None && *final(self) == *old(self),
            old(self).remaining().len() > 0 ==> {
                &&& r is Some
                &&& r->Some_0._family() == old(self).family()
                &&& r->Some_0._prefix() == old(self).remaining().first()
                &&& final(self).remaining() == old(self).remaining().skip(1)
            },
            final(self).remaining().len() > 0 ==> final(self).family() == old(self).family(),
    {
        match &mut self.state {
            None => None,
            Some(state) => {
                let ghost before = *state;
                let res = state.first();
                let moved = state._inc_first();
                if !moved {
                    self.state = None;
                }
                proof {
                    if moved {
                        assert(span_hosts(state._span()) =~= span_hosts(before._span()).skip(1));
                    } else {
                        assert(span_hosts(before._span()).skip(1) =~= Seq::<Prefix>::empty());
                    }
                }
                Some(res)
            },
        }
    }

    /// The next host from the back, if any is left.
    pub fn next_back(&mut self) -> (r: Option<A::Inet>)
        ensures
            old(self).remaining().len() == 0 ==> r is None && *final(self) == *old(self),
            old(self).remaining().len() > 0 ==> {
                &&& r is Some
                &&& r->Some_0._family() == old(self).family()
                &&& r->Some_0._prefix() == old(self).remaining().last()
                &&& final(self).remaining() == old(self).remaining().drop_last()
            },
            final(self).remaining().len() > 0 ==> final(self).family() == old(self).family(),
    {
        match &mut self.state {
            None => None,
            Some(state) => {
                let ghost before = *state;
                let res = state.second();
                let moved = state._dec_second();
                if !moved {
                    self.state = None;
                }
                proof {
                    if moved {
                        assert(span_hosts(state._span()) =~= span_hosts(
                            before._span(),
                        ).drop_last());
                    } else {
                        assert(span_hosts(before._span()).drop_last() =~= Seq::<Prefix>::empty());
                    }
                }
                Some(res)
            },
        }
    }

    /// How many hosts are left, as bounds: both are the number itself
    /// where it fits; no upper bound is given where it does not, and the
    /// lower bound is then the largest `usize`, or 0 for all `2^128`
    /// addresses.
    pub fn size_hint(&self) -> (r: (usize, Option<usize>))
        ensures
            self.remaining().len() <= usize::MAX ==> r == (
                self.remaining().len() as usize,
                Some(self.remaining().len() as usize),
            ),
            usize::MAX < self.remaining().len() <= u128::MAX ==> r == (usize::MAX, None::<usize>),
            self.remaining().len() > u128::MAX ==> r == (0usize, None::<usize>),
    {
        let state = match &self.state {
            None => return (0, Some(0)),
            Some(state) => state,
        };
        match state._covered_addresses() {
            NumberOfAddresses::MaxIpv6Addresses => (0, None),
            NumberOfAddresses::Count(c) => {
                if c > (usize::MAX as u128) {
                    (usize::MAX, None)
                } else {
                    let c = c as usize;
                    (c, Some(c))
                }
            },
        }
    }

    /// How many hosts are left.
    pub fn count(self) -> (n: usize)
        requires
            self.remaining().len() <= usize::MAX,
        ensures
            n == self.remaining().len(),
    {
        match self.size_hint().1 {
            Some(n) => n,
            None => 0,
        }
    }

    /// All the hosts that are left, from the front to the back.
    pub fn to_vec(self) -> (hosts: Vec<A::Inet>)
        ensures
            prefixes_of(hosts@) == self.remaining(),
            forall|i: int| 0 <= i < hosts@.len() ==> (#[trigger] hosts@[i])._family() == self.family(),
    {
        let mut it = self;
        let mut hosts: Vec<A::Inet> = Vec::new();
        proof {
            assert(prefixes_of(hosts@) + it.remaining() =~= self.remaining());
        }
        loop
            invariant
                prefixes_of(hosts@) + it.remaining() == self.remaining(),
                it.remaining().len() > 0 ==> it.family() == self.family(),
                forall|i: int|
                    0 <= i < hosts@.len() ==> (#[trigger] hosts@[i])._family() == self.family(),
            decreases it.remaining().len(),
        {
            let ghost before = it.remaining();
            let ghost had = hosts@;
            match it.next() {
                Some(host) => {
                    hosts.push(host);
                    proof {
                        assert(prefixes_of(hosts@) + it.remaining() =~= prefixes_of(had) + before);
                    }
                },
                None => {
                    proof {
                        assert(prefixes_of(hosts@) + it.remaining() =~= prefixes_of(hosts@));
                    }
                    return hosts;
                },
            }
        }
    }

    /// All the hosts that are left, from the back to the front.
    pub fn to_vec_reversed(self) -> (hosts: Vec<A::Inet>)
        ensures
            prefixes_of(hosts@) == self.remaining().reverse(),
            forall|i: int| 0 <= i < hosts@.len() ==> (#[trigger] hosts@[i])._family() == self.family(),
    {
        let mut it = self;
        let mut hosts: Vec<A::Inet> = Vec::new();
        proof {
            assert(it.remaining() + prefixes_of(hosts@).reverse() =~= self.remaining());
        }
        loop
            invariant
                it.remaining() + prefixes_of(hosts@).reverse() == self.remaining(),
                it.remaining().len() > 0 ==> it.family() == self.family(),
                forall|i: int|
                    0 <= i < hosts@.len() ==> (#[trigger] hosts@[i])._family() == self.family(),
            decreases it.remaining().len(),
        {
            let ghost before = it.remaining();
            let ghost had = hosts@;
            match it.next_back() {
                Some(host) => {
                    hosts.push(host);
                    proof {
                        assert(it.remaining() + prefixes_of(hosts@).reverse() =~= before
                            + prefixes_of(had).reverse());
                    }
                },
                None => {
                    proof {
                        assert(it.remaining() + prefixes_of(hosts@).reverse() =~= prefixes_of(
                            hosts@,
                        ).reverse());
                        assert(prefixes_of(hosts@).reverse().reverse() =~= prefixes_of(hosts@));
                    }
                    return hosts;
                },
            }
        }
    }

    /// Iterate only over addresses (without network prefix length).
    pub fn addresses(self) -> (it: InetAddressIterator<A>)
        ensures
            it.remaining() == addresses_of(self.remaining()),
            it.family() == self.family(),
    {
        InetAddressIterator { inner: self }
    }
}

/// What a sequence of hosts is as numbers.
pub open spec fn prefixes_of<I: PrivInet>(hosts: Seq<I>) -> Seq<Prefix> {
    hosts.map_values(|host: I| host._prefix())
}

/// The addresses of a sequence of hosts.
pub open spec fn addresses_of(hosts: Seq<Prefix>) -> Seq<nat> {
    hosts.map_values(|host: Prefix| host.address)
}

/// Iterator type to iterate over a list of IP addresses in a network.
#[derive(Clone, Copy, Debug)]
pub struct InetAddressIterator<A: Address> {
    pub(crate) inner: InetIterator<A>,
}

impl<A: Address> InetAddressIterator<A> {
    /// The addresses that are still to come, in order, as numbers.
    pub open(crate) spec fn remaining(&self) -> Seq<nat> {
        addresses_of(self.inner.remaining())
    }

    /// The family of the addresses that are still to come.
    pub open(crate) spec fn family(&self) -> Family {
        self.inner.family()
    }

    /// The next address from the front, if any is left.
    pub fn next(&mut self) -> (r: Option<A>)
        ensures
            old(self).remaining().len() == 0 ==> r is None && *final(self) == *old(self),
            old(self).remaining().len() > 0 ==> {
                &&& r is Some
                &&& r->Some_0._family() == old(self).family()
                &&& r->Some_0._value() == old(self).remaining().first()
                &&& final(self).remaining() == old(self).remaining().skip(1)
            },
            final(self).remaining().len() > 0 ==> final(self).family() == old(self).family(),
    {
        proof {
            if self.inner.remaining().len() > 0 {
                assert(addresses_of(self.inner.remaining().skip(1)) =~= addresses_of(
                    self.inner.remaining(),
                ).skip(1));
            }
        }
        match self.inner.next() {
            Some(inet) => Some(inet.address()),
            None => None,
        }
    }

    /// The next address from the back, if any is left.
    pub fn next_back(&mut self) -> (r: Option<A>)
        ensures
            old(self).remaining().len() == 0 ==> r is None && *final(self) == *old(self),
            old(self).remaining().len() > 0 ==> {
                &&& r is Some
                &&& r->Some_0._family() == old(self).family()
                &&& r->Some_0._value() == old(self).remaining().last()
                &&& final(self).remaining() == old(self).remaining().drop_last()
            },
            final(self).remaining().len() > 0 ==> final(self).family() == old(self).family(),
    {
        proof {
            if self.inner.remaining().len() > 0 {
                assert(addresses_of(self.inner.remaining().drop_last()) =~= addresses_of(
                    self.inner.remaining(),
                ).drop_last());
            }
        }
        match self.inner.next_back() {
            Some(inet) => Some(inet.address()),
            None => None,
        }
    }

    /// How many addresses are left, as bounds: see `InetIterator::size_hint`.
    pub fn size_hint(&self) -> (r: (usize, Option<usize>))
        ensures
            self.remaining().len() <= usize::MAX ==> r == (
                self.remaining().len() as usize,
                Some(self.remaining().len() as usize),
            ),
            usize::MAX < self.remaining().len() <= u128::MAX ==> r == (usize::MAX, None::<usize>),
            self.remaining().len() > u128::MAX ==> r == (0usize, None::<usize>),
    {
        self.inner.size_hint()
    }

    /// How many addresses are left.
    pub fn count(self) -> (n: usize)
        requires
            self.remaining().len() <= usize::MAX,
        ensures
            n == self.remaining().len(),
    {
        self.inner.count()
    }
}

} // verus!
