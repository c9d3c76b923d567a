//! The traits that the types of the two families and of either family share.
//!
//! Their contracts speak of a value through what the sealing traits say it
//! is: its family, and its addresses and network length as numbers.  The
//! width of a family is the number of bits of its addresses.

use vstd::prelude::*;
use core::fmt::Debug;
use core::hash::Hash;
use crate::errors::{InetTupleError, NetworkLengthTooLongError, NetworkParseError};
use crate::family::Family;
use crate::internal_traits::{PrivCidr, PrivInet, PrivInetPair, PrivUnspecAddress};
use crate::prefix_math::{
    has_zero_host_part,
    last_address,
    network_address,
    network_mask,
    prefix_match,
    step_backward,
    step_forward,
    Prefix,
    Span,
};

verus! {

/// Maps IP address type to other types based on this address type.
///
/// Implemented for `Ipv4Addr`, `Ipv6Addr` and `IpAddr`.
pub trait Address: Copy + Debug + Ord + Hash + PrivUnspecAddress {
    /// Corresponding `Inet` type (representing an address + a network
    /// containing it)
    type Inet: Inet<Address = Self, Cidr = Self::Cidr>;

    /// Corresponding `Cidr` type (representing only a network, not a specific
    /// address within)
    type Cidr: Cidr<Address = Self>;

    /// Corresponding `InetPair` type (representing two addresses in the same network)
    type InetPair: InetPair<Address = Self, Inet = Self::Inet>;
}

/// Types implementing `Cidr` represent IP networks.  An IP network in
/// this case is a set of IP addresses which share a common prefix (when
/// viewed as a bitstring).  The length of this prefix is called
/// `network_length`.
///
/// In the standard representation the network is identified by the
/// first address and the network length, separated by a '/'.
///
/// The first network length bits in an address representing the network
/// are the network part, the remaining bits are the host part.
/// Requiring an address to be the first in a network is equivalent to
/// requiring the host part being zero.
pub trait Cidr: Copy + Debug + Ord + Hash + PrivCidr {
    /// Type for the underlying address (`IpAddr`, `Ipv4Addr` or
    /// `Ipv6Addr`).
    type Address: PrivUnspecAddress;

    /// Corresponding `Inet` type.
    type Inet: PrivInet;

    /// Corresponding `InetPair` type.
    type InetPair: PrivInetPair;

    /// Create new network from address and prefix length.  If the
    /// network length exceeds the address length or the address is not
    /// the first address in the network ("host part not zero") an
    /// error is returned.
    fn new(addr: Self::Address, len: u8) -> (r: Result<Self, NetworkParseError>)
        ensures
            len > addr._family().width() ==> r == Err::<Self, _>(
                NetworkParseError::NetworkLengthTooLongError(
                    NetworkLengthTooLongError(len as usize, addr._family()),
                ),
            ),
            len <= addr._family().width() && !has_zero_host_part(
                addr._value(),
                addr._family().width(),
                len as nat,
            ) ==> r == Err::<Self, _>(NetworkParseError::InvalidHostPart),
            len <= addr._family().width() && has_zero_host_part(
                addr._value(),
                addr._family().width(),
                len as nat,
            ) ==> r is Ok && r->Ok_0._family() == addr._family() && r->Ok_0._prefix() == (Prefix {
                address: addr._value(),
                length: len as nat,
            }),
    ;

    /// Create a network containing a single address (network length =
    /// address length).
    fn new_host(addr: Self::Address) -> (cidr: Self)
        ensures
            cidr._family() == addr._family(),
            cidr._prefix() == (Prefix { address: addr._value(), length: addr._family().width() }),
    ;

    /// first address in the network as plain address
    fn first_address(&self) -> (addr: Self::Address)
        ensures
            addr._family() == self._family(),
            addr._value() == self._prefix().address,
    ;

    /// first address in the network
    fn first(&self) -> (inet: Self::Inet)
        ensures
            inet._family() == self._family(),
            inet._prefix() == self._prefix(),
    ;

    /// last address in the network as plain address
    fn last_address(&self) -> (addr: Self::Address)
        ensures
            addr._family() == self._family(),
            addr._value() == last_address(
                self._prefix().address,
                self._family().width(),
                self._prefix().length,
            ),
    ;

    /// last address in the network
    fn last(&self) -> (inet: Self::Inet)
        ensures
            inet._family() == self._family(),
            inet._prefix() == (Prefix {
                address: last_address(
                    self._prefix().address,
                    self._family().width(),
                    self._prefix().length,
                ),
                length: self._prefix().length,
            }),
    ;

    /// length in bits of the shared prefix of the contained addresses
    fn network_length(&self) -> (len: u8)
        ensures
            len as nat == self._prefix().length,
            len <= self._family().width(),
    ;

    /// IP family of the contained address (`Ipv4` or `Ipv6`).
    fn family(&self) -> (family: Family)
        ensures
            family == self._family(),
    ;

    /// whether network represents a single host address
    fn is_host_address(&self) -> (b: bool)
        ensures
            b == (self._prefix().length == self._family().width()),
    ;

    /// network mask: an pseudo address which has the first `network
    /// length` bits set to 1 and the remaining to 0.
    fn mask(&self) -> (mask: Self::Address)
        ensures
            mask._family() == self._family(),
            mask._value() == network_mask(self._family().width(), self._prefix().length),
    ;

    /// check whether an address is contained in the network
    fn contains(&self, addr: &Self::Address) -> (b: bool)
        ensures
            b == (addr._family() == self._family() && prefix_match(
                self._prefix().address,
                addr._value(),
                self._family().width(),
                self._prefix().length,
            )),
    ;

    /// The first and the last address of the network, as a pair.
    fn _range_pair(&self) -> (pair: Self::InetPair)
        ensures
            pair._family() == self._family(),
            pair._span() == (Span {
                first: self._prefix().address,
                second: last_address(
                    self._prefix().address,
                    self._family().width(),
                    self._prefix().length,
                ),
                length: self._prefix().length,
            }),
    ;
}

/// Types implementing Inet represent IP hosts within networks.
///
/// In addition to the network represented by the corresponding `Cidr`
/// type, an `Inet` type also stores a single host address which is part
/// of the network.
///
/// The host address is not really stored as separate data, but is
/// stored together with the network address.
///
/// The representation of a `Inet` type is similar to that of the
/// corresponding `Cidr` type, but uses the host address instead of the
/// first address of the network.
pub trait Inet: Copy + Debug + Ord + Hash + PrivInet {
    /// Type for the underlying address (`IpAddr`, `Ipv4Addr` or
    /// `Ipv6Addr`).
    type Address: PrivUnspecAddress;

    /// Corresponding `Cidr` type.
    type Cidr: PrivCidr;

    /// Create new host within a network from address and prefix length.
    /// If the network length exceeds the address length an error is
    /// returned.
    fn new(addr: Self::Address, len: u8) -> (r: Result<Self, NetworkLengthTooLongError>)
        ensures
            len <= addr._family().width() ==> r is Ok && r->Ok_0._family() == addr._family()
                && r->Ok_0._prefix() == (Prefix { address: addr._value(), length: len as nat }),
            len > addr._family().width() ==> r == Err::<Self, _>(
                NetworkLengthTooLongError(len as usize, addr._family()),
            ),
    ;

    /// Create a network containing a single address as host and the
    /// network (network length = address length).
    fn new_host(addr: Self::Address) -> (inet: Self)
        ensures
            inet._family() == addr._family(),
            inet._prefix() == (Prefix { address: addr._value(), length: addr._family().width() }),
    ;

    /// increments host part (without changing the network part);
    /// returns true on wrap around
    fn increment(&mut self) -> (overflow: bool)
        ensures
            final(self)._family() == old(self)._family(),
            final(self)._prefix().length == old(self)._prefix().length,
            (final(self)._prefix().address, overflow) == step_forward(
                old(self)._prefix().address,
                old(self)._family().width(),
                old(self)._prefix().length,
                1,
            ),
    ;

    /// Returns next address in network or `None` if it was the last address in the network
    fn next(self) -> (r: Option<Self>)
        ensures
            r is None <==> step_forward(
                self._prefix().address,
                self._family().width(),
                self._prefix().length,
                1,
            ).1,
            r is Some ==> r->Some_0._family() == self._family() && r->Some_0._prefix() == (Prefix {
                address: step_forward(
                    self._prefix().address,
                    self._family().width(),
                    self._prefix().length,
                    1,
                ).0,
                length: self._prefix().length,
            }),
    ;

    /// decrements host part (without changing the network part);
    /// returns true on wrap around
    fn decrement(&mut self) -> (overflow: bool)
        ensures
            final(self)._family() == old(self)._family(),
            final(self)._prefix().length == old(self)._prefix().length,
            (final(self)._prefix().address, overflow) == step_backward(
                old(self)._prefix().address,
                old(self)._family().width(),
                old(self)._prefix().length,
                1,
            ),
    ;

    /// Returns previous address in network or `None` if it was the first address in the network
    fn previous(self) -> (r: Option<Self>)
        ensures
            r is None <==> step_backward(
                self._prefix().address,
                self._family().width(),
                self._prefix().length,
                1,
            ).1,
            r is Some ==> r->Some_0._family() == self._family() && r->Some_0._prefix() == (Prefix {
                address: step_backward(
                    self._prefix().address,
                    self._family().width(),
                    self._prefix().length,
                    1,
                ).0,
                length: self._prefix().length,
            }),
    ;

    /// Find the nth host after the current one in the current network
    ///
    /// Returned boolean indicates whether an overflow occured.
    fn overflowing_add(self, step: u128) -> (r: (Self, bool))
        ensures
            r.0._family() == self._family(),
            r.0._prefix().length == self._prefix().length,
            (r.0._prefix().address, r.1) == step_forward(
                self._prefix().address,
                self._family().width(),
                self._prefix().length,
                step as nat,
            ),
    ;

    /// Find the nth host before the current one in the current network
    ///
    /// Returned boolean indicates whether an overflow occured.
    fn overflowing_sub(self, step: u128) -> (r: (Self, bool))
        ensures
            r.0._family() == self._family(),
            r.0._prefix().length == self._prefix().length,
            (r.0._prefix().address, r.1) == step_backward(
                self._prefix().address,
                self._family().width(),
                self._prefix().length,
                step as nat,
            ),
    ;

    /// network (i.e. drops the host information)
    fn network(&self) -> (cidr: Self::Cidr)
        ensures
            cidr._family() == self._family(),
            cidr._prefix() == (Prefix {
                address: network_address(
                    self._prefix().address,
                    self._family().width(),
                    self._prefix().length,
                ),
                length: self._prefix().length,
            }),
    ;

    /// the host
    fn address(&self) -> (addr: Self::Address)
        ensures
            addr._family() == self._family(),
            addr._value() == self._prefix().address,
    ;

    /// first address in the network as plain address
    fn first_address(&self) -> (addr: Self::Address)
        ensures
            addr._family() == self._family(),
            addr._value() == network_address(
                self._prefix().address,
                self._family().width(),
                self._prefix().length,
            ),
    ;

    /// first address in the network
    fn first(&self) -> (inet: Self)
        ensures
            inet._family() == self._family(),
            inet._prefix() == (Prefix {
                address: network_address(
                    self._prefix().address,
                    self._family().width(),
                    self._prefix().length,
                ),
                length: self._prefix().length,
            }),
    ;

    /// last address in the network as plain address
    fn last_address(&self) -> (addr: Self::Address)
        ensures
            addr._family() == self._family(),
            addr._value() == last_address(
                self._prefix().address,
                self._family().width(),
                self._prefix().length,
            ),
    ;

    /// last address in the network
    fn last(&self) -> (inet: Self)
        ensures
            inet._family() == self._family(),
            inet._prefix() == (Prefix {
                address: last_address(
                    self._prefix().address,
                    self._family().width(),
                    self._prefix().length,
                ),
                length: self._prefix().length,
            }),
    ;

    /// length in bits of the shared prefix of the contained addresses
    fn network_length(&self) -> (len: u8)
        ensures
            len as nat == self._prefix().length,
            len <= self._family().width(),
    ;

    /// IP family of the contained address (`Ipv4` or `Ipv6`).
    fn family(&self) -> (family: Family)
        ensures
            family == self._family(),
    ;

    /// whether network represents a single host address
    fn is_host_address(&self) -> (b: bool)
        ensures
            b == (self._prefix().length == self._family().width()),
    ;

    /// network mask: an pseudo address which has the first `network
    /// length` bits set to 1 and the remaining to 0.
    fn mask(&self) -> (mask: Self::Address)
        ensures
            mask._family() == self._family(),
            mask._value() == network_mask(self._family().width(), self._prefix().length),
    ;

    /// check whether an address is contained in the network
    fn contains(&self, addr: &Self::Address) -> (b: bool)
        ensures
            b == (addr._family() == self._family() && prefix_match(
                self._prefix().address,
                addr._value(),
                self._family().width(),
                self._prefix().length,
            )),
    ;
}

/// Whether two hosts can make a pair: they are of one family, have one
/// network length, lie in one network, and the first does not come after
/// the second.
pub open spec fn pairable(
    first_family: Family,
    first: Prefix,
    second_family: Family,
    second: Prefix,
) -> bool {
    &&& first_family == second_family
    &&& first.length == second.length
    &&& prefix_match(first.address, second.address, first_family.width(), first.length)
    &&& first.address <= second.address
}

/// Pair of two addresses in the same network.
pub trait InetPair: Copy + Debug + Eq + Hash + PrivInetPair {
    /// Type for the underlying address (`IpAddr`, `Ipv4Addr` or
    /// `Ipv6Addr`).
    type Address: PrivUnspecAddress;

    /// Corresponding `Inet` type.
    type Inet: PrivInet;

    /// Corresponding `Cidr` type.
    type Cidr: PrivCidr;

    /// Create new pair from two addresses in the same network
    ///
    /// Fails if the addresses are not in the same network, or if the
    /// first comes after the second.
    fn new(first: Self::Inet, second: Self::Inet) -> (r: Result<Self, InetTupleError>)
        ensures
            pairable(first._family(), first._prefix(), second._family(), second._prefix()) ==> r is Ok
                && r->Ok_0._family() == first._family() && r->Ok_0._span() == (Span {
                first: first._prefix().address,
                second: second._prefix().address,
                length: first._prefix().length,
            }),
            !pairable(first._family(), first._prefix(), second._family(), second._prefix()) ==> r
                == Err::<Self, _>(InetTupleError::NotInSharedNetwork),
    ;

    /// Create new pair from two addresses and a common length
    ///
    /// Fails if the network length is invalid for the addresses or the
    /// addresses are not in the same network, or if the first comes after
    /// the second.
    fn new_from_addresses(first: Self::Address, second: Self::Address, len: u8) -> (r: Result<
        Self,
        InetTupleError,
    >)
        ensures
            first._family() == second._family() && len > first._family().width() ==> r == Err::<
                Self,
                _,
            >(
                InetTupleError::NetworkLengthTooLongError(
                    NetworkLengthTooLongError(len as usize, first._family()),
                ),
            ),
            first._family() == second._family() && len <= first._family().width() && pairable(
                first._family(),
                Prefix { address: first._value(), length: len as nat },
                second._family(),
                Prefix { address: second._value(), length: len as nat },
            ) ==> r is Ok && r->Ok_0._family() == first._family() && r->Ok_0._span() == (Span {
                first: first._value(),
                second: second._value(),
                length: len as nat,
            }),
            first._family() != second._family() || (len <= first._family().width() && !pairable(
                first._family(),
                Prefix { address: first._value(), length: len as nat },
                second._family(),
                Prefix { address: second._value(), length: len as nat },
            )) ==> r == Err::<Self, _>(InetTupleError::NotInSharedNetwork),
    ;

    /// First address
    fn first(&self) -> (inet: Self::Inet)
        ensures
            self._span().first <= self._span().second,
            inet._family() == self._family(),
            inet._prefix() == (Prefix { address: self._span().first, length: self._span().length }),
    ;

    /// Second address
    fn second(&self) -> (inet: Self::Inet)
        ensures
            self._span().first <= self._span().second,
            inet._family() == self._family(),
            inet._prefix() == (Prefix {
                address: self._span().second,
                length: self._span().length,
            }),
    ;

    /// network (i.e. drops the host information)
    fn network(&self) -> (cidr: Self::Cidr)
        ensures
            cidr._family() == self._family(),
            cidr._prefix() == (Prefix {
                address: network_address(
                    self._span().first,
                    self._family().width(),
                    self._span().length,
                ),
                length: self._span().length,
            }),
    ;

    /// length in bits of the shared prefix of the contained addresses
    fn network_length(&self) -> (len: u8)
        ensures
            len as nat == self._span().length,
            len <= self._family().width(),
    ;

    /// IP family of the contained address (`Ipv4` or `Ipv6`).
    fn family(&self) -> (family: Family)
        ensures
            family == self._family(),
    ;
}

} // verus!
