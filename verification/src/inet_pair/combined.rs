//! Pairs of hosts within one network of either family.

use vstd::prelude::*;
use crate::address::IpAddr;
use crate::cidr::IpCidr;
use crate::errors::{InetTupleError, NetworkLengthTooLongError};
use crate::family::Family;
use crate::inet::IpInet;
use crate::inet_iterator::InetIterator;
use crate::inet_pair::{IpInetPair, Ipv4InetPair, Ipv6InetPair};
use crate::internal_traits::{PrivCidr, PrivInet, PrivInetPair, PrivUnspecAddress};
use crate::num::NumberOfAddresses;
use crate::prefix_math::{network_address, span_hosts, Prefix, Span};
use crate::traits::{pairable, InetPair};

verus! {

impl IpInetPair {
    /// Whether representing an IPv4 network
    pub fn is_ipv4(&self) -> (b: bool)
        ensures
            b == (self._family() == Family::Ipv4),
    {
        match self {
            IpInetPair::V4(_) => true,
            IpInetPair::V6(_) => false,
        }
    }

    /// Whether representing an IPv6 network
    pub fn is_ipv6(&self) -> (b: bool)
        ensures
            b == (self._family() == Family::Ipv6),
    {
        match self {
            IpInetPair::V4(_) => false,
            IpInetPair::V6(_) => true,
        }
    }

    /// Create new pair from two addresses in the same network
    ///
    /// Fails if the addresses are not in the same network, or if the
    /// first comes after the second.
    pub fn new(first: IpInet, second: IpInet) -> (r: Result<Self, InetTupleError>)
        ensures
            pairable(first._family(), first._prefix(), second._family(), second._prefix()) ==> r is Ok
                && r->Ok_0._family() == first._family() && r->Ok_0._span() == (Span {
                first: first._prefix().address,
                second: second._prefix().address,
                length: first._prefix().length,
            }),
            !pairable(first._family(), first._prefix(), second._family(), second._prefix()) ==> r
                == Err::<Self, _>(InetTupleError::NotInSharedNetwork),
    {
        match (first, second) {
            (IpInet::V4(first), IpInet::V4(second)) => match Ipv4InetPair::new(first, second) {
                Ok(pair) => Ok(IpInetPair::V4(pair)),
                Err(e) => Err(e),
            },
            (IpInet::V6(first), IpInet::V6(second)) => match Ipv6InetPair::new(first, second) {
                Ok(pair) => Ok(IpInetPair::V6(pair)),
                Err(e) => Err(e),
            },
            _ => Err(InetTupleError::NotInSharedNetwork),
        }
    }

    /// Create new pair from two addresses and a common length
    ///
    /// Fails if the network length is invalid for the addresses or the
    /// addresses are not in the same network, or if the first comes after
    /// the second.
    pub fn new_from_addresses(first: IpAddr, second: IpAddr, len: u8) -> (r: Result<
        Self,
        InetTupleError,
    >)
        ensures
            first._family() == second._family() && len > first._family().width() ==> r == Err::<
                Self,
                _,
            >(
                InetTupleError::NetworkLengthTooLongError(
                    NetworkLengthTooLongError(len as usize, first._family()),
                ),
            ),
            first._family() == second._family() && len <= first._family().width() && pairable(
                first._family(),
                Prefix { address: first._value(), length: len as nat },
                second._family(),
                Prefix { address: second._value(), length: len as nat },
            ) ==> r is Ok && r->Ok_0._family() == first._family() && r->Ok_0._span() == (Span {
                first: first._value(),
                second: second._value(),
                length: len as nat,
            }),
            first._family() != second._family() || (len <= first._family().width() && !pairable(
                first._family(),
                Prefix { address: first._value(), length: len as nat },
                second._family(),
                Prefix { address: second._value(), length: len as nat },
            )) ==> r == Err::<Self, _>(InetTupleError::NotInSharedNetwork),
    {
        match (first, second) {
            (IpAddr::V4(first), IpAddr::V4(second)) => {
                match Ipv4InetPair::new_from_addresses(first, second, len) {
                    Ok(pair) => Ok(IpInetPair::V4(pair)),
                    Err(e) => Err(e),
                }
            },
            (IpAddr::V6(first), IpAddr::V6(second)) => {
                match Ipv6InetPair::new_from_addresses(first, second, len) {
                    Ok(pair) => Ok(IpInetPair::V6(pair)),
                    Err(e) => Err(e),
                }
            },
            _ => Err(InetTupleError::NotInSharedNetwork),
        }
    }

    /// First address
    pub fn first(&self) -> (inet: IpInet)
        ensures
            self._span().first <= self._span().second,
            inet._family() == self._family(),
            inet._prefix() == (Prefix { address: self._span().first, length: self._span().length }),
    {
        match self {
            IpInetPair::V4(p) => IpInet::V4(p.first()),
            IpInetPair::V6(p) => IpInet::V6(p.first()),
        }
    }

    /// Second address
    pub fn second(&self) -> (inet: IpInet)
        ensures
            self._span().first <= self._span().second,
            inet._family() == self._family(),
            inet._prefix() == (Prefix {
                address: self._span().second,
                length: self._span().length,
            }),
    {
        match self {
            IpInetPair::V4(p) => IpInet::V4(p.second()),
            IpInetPair::V6(p) => IpInet::V6(p.second()),
        }
    }

    /// network (i.e. drops the host information)
    pub fn network(&self) -> (cidr: IpCidr)
        ensures
            cidr._family() == self._family(),
            cidr._prefix() == (Prefix {
                address: network_address(
                    self._span().first,
                    self._family().width(),
                    self._span().length,
                ),
                length: self._span().length,
            }),
    {
        match self {
            IpInetPair::V4(p) => IpCidr::V4(p.network()),
            IpInetPair::V6(p) => IpCidr::V6(p.network()),
        }
    }

    /// length in bits of the shared prefix of the contained addresses
    pub fn network_length(&self) -> (len: u8)
        ensures
            len as nat == self._span().length,
            len <= self._family().width(),
    {
        match self {
            IpInetPair::V4(p) => p.network_length(),
            IpInetPair::V6(p) => p.network_length(),
        }
    }

    /// IP family of the contained address (`Ipv4` or `Ipv6`).
    pub fn family(&self) -> (family: Family)
        ensures
            family == self._family(),
    {
        match self {
            IpInetPair::V4(_) => Family::Ipv4,
            IpInetPair::V6(_) => Family::Ipv6,
        }
    }

    /// Iterate over `first..=second` (inclusive)
    pub fn iter(self) -> (it: InetIterator<IpAddr>)
        ensures
            it.remaining() == span_hosts(self._span()),
            it.remaining().len() > 0,
            it.family() == self._family(),
    {
        proof {
            match self {
                IpInetPair::V4(p) => {
                    use_type_invariant(&p);
                },
                IpInetPair::V6(p) => {
                    use_type_invariant(&p);
                },
            }
        }
        InetIterator::_new(self)
    }
}

impl PrivInetPair for IpInetPair {
    open spec fn _family(&self) -> Family {
        match self {
            IpInetPair::V4(_) => Family::Ipv4,
            IpInetPair::V6(_) => Family::Ipv6,
        }
    }

    open spec fn _span(&self) -> Span {
        match self {
            IpInetPair::V4(p) => p@,
            IpInetPair::V6(p) => p@,
        }
    }

    fn _covered_addresses(&self) -> (n: NumberOfAddresses) {
        match self {
            IpInetPair::V4(p) => p._covered_addresses(),
            IpInetPair::V6(p) => p._covered_addresses(),
        }
    }

    fn _inc_first(&mut self) -> (moved: bool) {
        match self {
            IpInetPair::V4(p) => p._inc_first(),
            IpInetPair::V6(p) => p._inc_first(),
        }
    }

    fn _dec_second(&mut self) -> (moved: bool) {
        match self {
            IpInetPair::V4(p) => p._dec_second(),
            IpInetPair::V6(p) => p._dec_second(),
        }
    }
}

impl InetPair for IpInetPair {
    type Address = IpAddr;

    type Inet = IpInet;

    type Cidr = IpCidr;

    fn new(first: IpInet, second: IpInet) -> (r: Result<Self, InetTupleError>) {
        IpInetPair::new(first, second)
    }

    fn new_from_addresses(first: IpAddr, second: IpAddr, len: u8) -> (r: Result<
        Self,
        InetTupleError,
    >) {
        IpInetPair::new_from_addresses(first, second, len)
    }

    fn first(&self) -> (inet: IpInet) {
        IpInetPair::first(self)
    }

    fn second(&self) -> (inet: IpInet) {
        IpInetPair::second(self)
    }

    fn network(&self) -> (cidr: IpCidr) {
        IpInetPair::network(self)
    }

    fn network_length(&self) -> (len: u8) {
        IpInetPair::network_length(self)
    }

    fn family(&self) -> (family: Family) {
        IpInetPair::family(self)
    }
}

} // verus!
