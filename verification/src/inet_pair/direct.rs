//! Pairs of hosts within one IPv4 network.

use vstd::prelude::*;
use crate::address::Ipv4Addr;
use crate::cidr::Ipv4Cidr;
use crate::errors::{InetTupleError, NetworkLengthTooLongError};
use crate::family::Family;
use crate::inet::Ipv4Inet;
use crate::inet_iterator::InetIterator;
use crate::inet_pair::Ipv4InetPair;
use crate::internal_traits::{Ipv4AddrTools, PrivInetPair};
use crate::num::NumberOfAddresses;
use crate::prefix_math::{
    lemma_match_is_range,
    lemma_parts,
    network_address,
    prefix_match,
    span_hosts,
    Prefix,
    Span,
};
use crate::traits::{pairable, InetPair};

verus! {

impl View for Ipv4InetPair {
    type V = Span;

    /// The two addresses and the length of their network, as numbers.
    open(crate) spec fn view(&self) -> Span {
        Span { first: self.first@, second: self.second@, length: self.network_length as nat }
    }
}

impl Ipv4InetPair {
    /// What holds of every value: the network length is at most 32, the
    /// two addresses lie in one network of that length, and the first is
    /// not after the second.
    pub open spec fn wf(self) -> bool {
        &&& self@.length <= 32
        &&& self@.first <= self@.second < 0x1_0000_0000
        &&& prefix_match(self@.first, self@.second, 32, self@.length)
    }

    #[verifier::type_invariant]
    pub(crate) open spec fn inv(self) -> bool {
        self.wf()
    }

    /// Create new pair from two addresses in the same network.
    ///
    /// Fails if the addresses are not in the same network, or if the
    /// first comes after the second.
    pub fn new(first: Ipv4Inet, second: Ipv4Inet) -> (r: Result<Self, InetTupleError>)
        ensures
            pairable(Family::Ipv4, first@, Family::Ipv4, second@) ==> r is Ok && r->Ok_0@ == (Span {
                first: first@.address,
                second: second@.address,
                length: first@.length,
            }),
            !pairable(Family::Ipv4, first@, Family::Ipv4, second@) ==> r == Err::<Self, _>(
                InetTupleError::NotInSharedNetwork,
            ),
    {
        if first.network_length != second.network_length {
            return Err(InetTupleError::NotInSharedNetwork);
        }
        if !Ipv4AddrTools::_prefix_match(first.address, second.address, first.network_length) {
            return Err(InetTupleError::NotInSharedNetwork);
        }
        if first.address.to_bits() > second.address.to_bits() {
            return Err(InetTupleError::NotInSharedNetwork);
        }
        proof {
            use_type_invariant(&first);
            use_type_invariant(&second);
        }
        Ok(
            Ipv4InetPair {
                first: first.address,
                second: second.address,
                network_length: first.network_length,
            },
        )
    }

    /// Create new pair from two addresses and a common length.
    ///
    /// Fails if the network length is invalid for the addresses or the
    /// addresses are not in the same network, or if the first comes after
    /// the second.
    pub fn new_from_addresses(first: Ipv4Addr, second: Ipv4Addr, len: u8) -> (r: Result<
        Self,
        InetTupleError,
    >)
        ensures
            len > 32 ==> r == Err::<Self, _>(
                InetTupleError::NetworkLengthTooLongError(
                    NetworkLengthTooLongError(len as usize, Family::Ipv4),
                ),
            ),
            len <= 32 && pairable(
                Family::Ipv4,
                Prefix { address: first@, length: len as nat },
                Family::Ipv4,
                Prefix { address: second@, length: len as nat },
            ) ==> r is Ok && r->Ok_0@ == (Span {
                first: first@,
                second: second@,
                length: len as nat,
            }),
            len <= 32 && !pairable(
                Family::Ipv4,
                Prefix { address: first@, length: len as nat },
                Family::Ipv4,
                Prefix { address: second@, length: len as nat },
            ) ==> r == Err::<Self, _>(InetTupleError::NotInSharedNetwork),
    {
        if len > Family::Ipv4.len() {
            return Err(
                InetTupleError::NetworkLengthTooLongError(
                    NetworkLengthTooLongError::new(len as usize, Family::Ipv4),
                ),
            );
        }
        if !Ipv4AddrTools::_prefix_match(first, second, len) {
            return Err(InetTupleError::NotInSharedNetwork);
        }
        if first.to_bits() > second.to_bits() {
            return Err(InetTupleError::NotInSharedNetwork);
        }
        proof {
            second.lemma_bounded();
        }
        Ok(Ipv4InetPair { first, second, network_length: len })
    }

    /// First address.
    pub fn first(&self) -> (inet: Ipv4Inet)
        ensures
            self@.first <= self@.second,
            inet@ == (Prefix { address: self@.first, length: self@.length }),
    {
        proof {
            use_type_invariant(self);
        }
        Ipv4Inet { address: self.first, network_length: self.network_length }
    }

    /// Second address.
    pub fn second(&self) -> (inet: Ipv4Inet)
        ensures
            self@.first <= self@.second,
            inet@ == (Prefix { address: self@.second, length: self@.length }),
    {
        proof {
            use_type_invariant(self);
        }
        Ipv4Inet { address: self.second, network_length: self.network_length }
    }

    /// Network (i.e. drops the host information).
    pub fn network(&self) -> (cidr: Ipv4Cidr)
        ensures
            cidr@ == (Prefix {
                address: network_address(self@.first, 32, self@.length),
                length: self@.length,
            }),
    {
        self.first().network()
    }

    /// Length in bits of the shared prefix of the contained addresses.
    pub fn network_length(&self) -> (len: u8)
        ensures
            len as nat == self@.length,
            len <= 32,
    {
        proof {
            use_type_invariant(self);
        }
        self.network_length
    }

    /// IP family of the contained address.
    pub fn family(&self) -> (family: Family)
        ensures
            family == Family::Ipv4,
    {
        Family::Ipv4
    }

    /// Iterate over `first..=second` (inclusive).
    pub fn iter(self) -> (it: InetIterator<Ipv4Addr>)
        ensures
            it.remaining() == span_hosts(self@),
            it.remaining().len() > 0,
            it.family() == Family::Ipv4,
    {
        proof {
            use_type_invariant(&self);
        }
        InetIterator::_new(self)
    }
}

impl PrivInetPair for Ipv4InetPair {
    open spec fn _family(&self) -> Family {
        Family::Ipv4
    }

    open spec fn _span(&self) -> Span {
        self@
    }

    fn _covered_addresses(&self) -> (n: NumberOfAddresses) {
        proof {
            use_type_invariant(self);
        }
        let first: u32 = Ipv4AddrTools::to_native(self.first);
        let second: u32 = Ipv4AddrTools::to_native(self.second);
        NumberOfAddresses::count_from_distance((second - first) as u128)
    }

    fn _inc_first(&mut self) -> (moved: bool) {
        proof {
            use_type_invariant(&*self);
        }
        let current = Ipv4AddrTools::to_native(self.first);
        if current < Ipv4AddrTools::to_native(self.second) {
            proof {
                crate::bit_math::lemma_pow2_widths();
                lemma_parts(self@.second, 32, self@.length);
                lemma_match_is_range(self@.second, self@.first, 32, self@.length);
                lemma_match_is_range(self@.second, (self@.first + 1) as nat, 32, self@.length);
            }
            self.first = Ipv4AddrTools::from_native(current + 1);
            true
        } else {
            false
        }
    }

    fn _dec_second(&mut self) -> (moved: bool) {
        proof {
            use_type_invariant(&*self);
        }
        let current = Ipv4AddrTools::to_native(self.second);
        if Ipv4AddrTools::to_native(self.first) < current {
            proof {
                crate::bit_math::lemma_pow2_widths();
                lemma_parts(self@.first, 32, self@.length);
                lemma_match_is_range(self@.first, self@.second, 32, self@.length);
                lemma_match_is_range(self@.first, (self@.second - 1) as nat, 32, self@.length);
            }
            self.second = Ipv4AddrTools::from_native(current - 1);
            true
        } else {
            false
        }
    }
}

impl InetPair for Ipv4InetPair {
    type Address = Ipv4Addr;

    type Inet = Ipv4Inet;

    type Cidr = Ipv4Cidr;

    fn new(first: Ipv4Inet, second: Ipv4Inet) -> (r: Result<Self, InetTupleError>) {
        Ipv4InetPair::new(first, second)
    }

    fn new_from_addresses(first: Ipv4Addr, second: Ipv4Addr, len: u8) -> (r: Result<
        Self,
        InetTupleError,
    >) {
        Ipv4InetPair::new_from_addresses(first, second, len)
    }

    fn first(&self) -> (inet: Ipv4Inet) {
        Ipv4InetPair::first(self)
    }

    fn second(&self) -> (inet: Ipv4Inet) {
        Ipv4InetPair::second(self)
    }

    fn network(&self) -> (cidr: Ipv4Cidr) {
        Ipv4InetPair::network(self)
    }

    fn network_length(&self) -> (len: u8) {
        Ipv4InetPair::network_length(self)
    }

    fn family(&self) -> (family: Family) {
        Ipv4InetPair::family(self)
    }
}

} // verus!
