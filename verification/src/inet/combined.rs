//! Hosts within networks of either family.

use vstd::prelude::*;
use crate::address::IpAddr;
use crate::cidr::IpCidr;
use crate::errors::NetworkLengthTooLongError;
use crate::family::Family;
use crate::inet::{IpInet, Ipv4Inet, Ipv6Inet};
use crate::internal_traits::{PrivCidr, PrivInet, PrivUnspecAddress};
use crate::prefix_math::{
    last_address,
    network_address,
    network_mask,
    prefix_match,
    step_backward,
    step_forward,
    Prefix,
};
use crate::traits::Inet;

verus! {

impl PrivInet for IpInet {
    open spec fn _family(&self) -> Family {
        match self {
            IpInet::V4(_) => Family::Ipv4,
            IpInet::V6(_) => Family::Ipv6,
        }
    }

    open spec fn _prefix(&self) -> Prefix {
        match self {
            IpInet::V4(c) => c@,
            IpInet::V6(c) => c@,
        }
    }
}

impl IpInet {
    /// Whether representing an IPv4 network
    pub fn is_ipv4(&self) -> (b: bool)
        ensures
            b == (self._family() == Family::Ipv4),
    {
        match self {
            IpInet::V4(_) => true,
            IpInet::V6(_) => false,
        }
    }

    /// Whether representing an IPv6 network
    pub fn is_ipv6(&self) -> (b: bool)
        ensures
            b == (self._family() == Family::Ipv6),
    {
        match self {
            IpInet::V4(_) => false,
            IpInet::V6(_) => true,
        }
    }

    /// Create new host within a network from address and prefix length.
    /// If the network length exceeds the address length an error is
    /// returned.
    pub fn new(addr: IpAddr, len: u8) -> (r: Result<Self, NetworkLengthTooLongError>)
        ensures
            len <= addr._family().width() ==> r is Ok && r->Ok_0._family() == addr._family()
                && r->Ok_0._prefix() == (Prefix { address: addr._value(), length: len as nat }),
            len > addr._family().width() ==> r == Err::<Self, _>(
                NetworkLengthTooLongError(len as usize, addr._family()),
            ),
    {
        match addr {
            IpAddr::V4(a) => match Ipv4Inet::new(a, len) {
                Ok(inet) => Ok(IpInet::V4(inet)),
                Err(e) => Err(e),
            },
            IpAddr::V6(a) => match Ipv6Inet::new(a, len) {
                Ok(inet) => Ok(IpInet::V6(inet)),
                Err(e) => Err(e),
            },
        }
    }

    /// Create a network containing a single address as host and the
    /// network (network length = address length).
    pub fn new_host(addr: IpAddr) -> (inet: Self)
        ensures
            inet._family() == addr._family(),
            inet._prefix() == (Prefix { address: addr._value(), length: addr._family().width() }),
    {
        match addr {
            IpAddr::V4(a) => IpInet::V4(Ipv4Inet::new_host(a)),
            IpAddr::V6(a) => IpInet::V6(Ipv6Inet::new_host(a)),
        }
    }

    /// increments host part (without changing the network part);
    /// returns true on wrap around
    pub fn increment(&mut self) -> (overflow: bool)
        ensures
            final(self)._family() == old(self)._family(),
            final(self)._prefix().length == old(self)._prefix().length,
            (final(self)._prefix().address, overflow) == step_forward(
                old(self)._prefix().address,
                old(self)._family().width(),
                old(self)._prefix().length,
                1,
            ),
    {
        match self {
            IpInet::V4(c) => c.increment(),
            IpInet::V6(c) => c.increment(),
        }
    }

    /// Returns next address in network or `None` if it was the last address in the network
    pub fn next(self) -> (r: Option<Self>)
        ensures
            r is None <==> step_forward(
                self._prefix().address,
                self._family().width(),
                self._prefix().length,
                1,
            ).1,
            r is Some ==> r->Some_0._family() == self._family() && r->Some_0._prefix() == (Prefix {
                address: step_forward(
                    self._prefix().address,
                    self._family().width(),
                    self._prefix().length,
                    1,
                ).0,
                length: self._prefix().length,
            }),
    {
        match self {
            IpInet::V4(c) => match c.next() {
                Some(c) => Some(IpInet::V4(c)),
                None => None,
            },
            IpInet::V6(c) => match c.next() {
                Some(c) => Some(IpInet::V6(c)),
                None => None,
            },
        }
    }

    /// decrements host part (without changing the network part);
    /// returns true on wrap around
    pub fn decrement(&mut self) -> (overflow: bool)
        ensures
            final(self)._family() == old(self)._family(),
            final(self)._prefix().length == old(self)._prefix().length,
            (final(self)._prefix().address, overflow) == step_backward(
                old(self)._prefix().address,
                old(self)._family().width(),
                old(self)._prefix().length,
                1,
            ),
    {
        match self {
            IpInet::V4(c) => c.decrement(),
            IpInet::V6(c) => c.decrement(),
        }
    }

    /// Returns previous address in network or `None` if it was the first address in the network
    pub fn previous(self) -> (r: Option<Self>)
        ensures
            r is None <==> step_backward(
                self._prefix().address,
                self._family().width(),
                self._prefix().length,
                1,
            ).1,
            r is Some ==> r->Some_0._family() == self._family() && r->Some_0._prefix() == (Prefix {
                address: step_backward(
                    self._prefix().address,
                    self._family().width(),
                    self._prefix().length,
                    1,
                ).0,
                length: self._prefix().length,
            }),
    {
        match self {
            IpInet::V4(c) => match c.previous() {
                Some(c) => Some(IpInet::V4(c)),
                None => None,
            },
            IpInet::V6(c) => match c.previous() {
                Some(c) => Some(IpInet::V6(c)),
                None => None,
            },
        }
    }

    /// Find the nth host after the current one in the current network
    ///
    /// Returned boolean indicates whether an overflow occured.
    pub fn overflowing_add(self, step: u128) -> (r: (Self, bool))
        ensures
            r.0._family() == self._family(),
            r.0._prefix().length == self._prefix().length,
            (r.0._prefix().address, r.1) == step_forward(
                self._prefix().address,
                self._family().width(),
                self._prefix().length,
                step as nat,
            ),
    {
        match self {
            IpInet::V4(c) => {
                let (c, overflow) = c.overflowing_add(step);
                (IpInet::V4(c), overflow)
            },
            IpInet::V6(c) => {
                let (c, overflow) = c.overflowing_add(step);
                (IpInet::V6(c), overflow)
            },
        }
    }

    /// Find the nth host before the current one in the current network
    ///
    /// Returned boolean indicates whether an overflow occured.
    pub fn overflowing_sub(self, step: u128) -> (r: (Self, bool))
        ensures
            r.0._family() == self._family(),
            r.0._prefix().length == self._prefix().length,
            (r.0._prefix().address, r.1) == step_backward(
                self._prefix().address,
                self._family().width(),
                self._prefix().length,
                step as nat,
            ),
    {
        match self {
            IpInet::V4(c) => {
                let (c, overflow) = c.overflowing_sub(step);
                (IpInet::V4(c), overflow)
            },
            IpInet::V6(c) => {
                let (c, overflow) = c.overflowing_sub(step);
                (IpInet::V6(c), overflow)
            },
        }
    }

    /// network (i.e. drops the host information)
    pub fn network(&self) -> (cidr: IpCidr)
        ensures
            cidr._family() == self._family(),
            cidr._prefix() == (Prefix {
                address: network_address(
                    self._prefix().address,
                    self._family().width(),
                    self._prefix().length,
                ),
                length: self._prefix().length,
            }),
    {
        match self {
            IpInet::V4(c) => IpCidr::V4(c.network()),
            IpInet::V6(c) => IpCidr::V6(c.network()),
        }
    }

    /// the host
    pub fn address(&self) -> (addr: IpAddr)
        ensures
            addr._family() == self._family(),
            addr._value() == self._prefix().address,
    {
        match self {
            IpInet::V4(c) => IpAddr::V4(c.address()),
            IpInet::V6(c) => IpAddr::V6(c.address()),
        }
    }

    /// first address in the network as plain address
    pub fn first_address(&self) -> (addr: IpAddr)
        ensures
            addr._family() == self._family(),
            addr._value() == network_address(
                self._prefix().address,
                self._family().width(),
                self._prefix().length,
            ),
    {
        match self {
            IpInet::V4(c) => IpAddr::V4(c.first_address()),
            IpInet::V6(c) => IpAddr::V6(c.first_address()),
        }
    }

    /// first address in the network
    pub fn first(&self) -> (inet: Self)
        ensures
            inet._family() == self._family(),
            inet._prefix() == (Prefix {
                address: network_address(
                    self._prefix().address,
                    self._family().width(),
                    self._prefix().length,
                ),
                length: self._prefix().length,
            }),
    {
        match self {
            IpInet::V4(c) => IpInet::V4(c.first()),
            IpInet::V6(c) => IpInet::V6(c.first()),
        }
    }

    /// last address in the network as plain address
    pub fn last_address(&self) -> (addr: IpAddr)
        ensures
            addr._family() == self._family(),
            addr._value() == last_address(
                self._prefix().address,
                self._family().width(),
                self._prefix().length,
            ),
    {
        match self {
            IpInet::V4(c) => IpAddr::V4(c.last_address()),
            IpInet::V6(c) => IpAddr::V6(c.last_address()),
        }
    }

    /// last address in the network
    pub fn last(&self) -> (inet: Self)
        ensures
            inet._family() == self._family(),
            inet._prefix() == (Prefix {
                address: last_address(
                    self._prefix().address,
                    self._family().width(),
                    self._prefix().length,
                ),
                length: self._prefix().length,
            }),
    {
        match self {
            IpInet::V4(c) => IpInet::V4(c.last()),
            IpInet::V6(c) => IpInet::V6(c.last()),
        }
    }

    /// length in bits of the shared prefix of the contained addresses
    pub fn network_length(&self) -> (len: u8)
        ensures
            len as nat == self._prefix().length,
            len <= self._family().width(),
    {
        match self {
            IpInet::V4(c) => c.network_length(),
            IpInet::V6(c) => c.network_length(),
        }
    }

    /// IP family of the contained address (`Ipv4` or `Ipv6`).
    pub fn family(&self) -> (family: Family)
        ensures
            family == self._family(),
    {
        match self {
            IpInet::V4(_) => Family::Ipv4,
            IpInet::V6(_) => Family::Ipv6,
        }
    }

    /// whether network represents a single host address
    pub fn is_host_address(&self) -> (b: bool)
        ensures
            b == (self._prefix().length == self._family().width()),
    {
        match self {
            IpInet::V4(c) => c.is_host_address(),
            IpInet::V6(c) => c.is_host_address(),
        }
    }

    /// network mask: an pseudo address which has the first `network
    /// length` bits set to 1 and the remaining to 0.
    pub fn mask(&self) -> (mask: IpAddr)
        ensures
            mask._family() == self._family(),
            mask._value() == network_mask(self._family().width(), self._prefix().length),
    {
        match self {
            IpInet::V4(c) => IpAddr::V4(c.mask()),
            IpInet::V6(c) => IpAddr::V6(c.mask()),
        }
    }

    /// check whether an address is contained in the network
    pub fn contains(&self, addr: &IpAddr) -> (b: bool)
        ensures
            b == (addr._family() == self._family() && prefix_match(
                self._prefix().address,
                addr._value(),
                self._family().width(),
                self._prefix().length,
            )),
    {
        match self {
            IpInet::V4(c) => match addr {
                IpAddr::V4(a) => c.contains(a),
                IpAddr::V6(_) => false,
            },
            IpInet::V6(c) => match addr {
                IpAddr::V4(_) => false,
                IpAddr::V6(a) => c.contains(a),
            },
        }
    }
}

impl Inet for IpInet {
    type Address = IpAddr;

    type Cidr = IpCidr;

    fn new(addr: IpAddr, len: u8) -> (r: Result<Self, NetworkLengthTooLongError>) {
        IpInet::new(addr, len)
    }

    fn new_host(addr: IpAddr) -> (inet: Self) {
        IpInet::new_host(addr)
    }

    fn increment(&mut self) -> (overflow: bool) {
        IpInet::increment(self)
    }

    fn next(self) -> (r: Option<Self>) {
        IpInet::next(self)
    }

    fn decrement(&mut self) -> (overflow: bool) {
        IpInet::decrement(self)
    }

    fn previous(self) -> (r: Option<Self>) {
        IpInet::previous(self)
    }

    fn overflowing_add(self, step: u128) -> (r: (Self, bool)) {
        IpInet::overflowing_add(self, step)
    }

    fn overflowing_sub(self, step: u128) -> (r: (Self, bool)) {
        IpInet::overflowing_sub(self, step)
    }

    fn network(&self) -> (cidr: IpCidr) {
        IpInet::network(self)
    }

    fn address(&self) -> (addr: IpAddr) {
        IpInet::address(self)
    }

    fn first_address(&self) -> (addr: IpAddr) {
        IpInet::first_address(self)
    }

    fn first(&self) -> (inet: Self) {
        IpInet::first(self)
    }

    fn last_address(&self) -> (addr: IpAddr) {
        IpInet::last_address(self)
    }

    fn last(&self) -> (inet: Self) {
        IpInet::last(self)
    }

    fn network_length(&self) -> (len: u8) {
        IpInet::network_length(self)
    }

    fn family(&self) -> (family: Family) {
        IpInet::family(self)
    }

    fn is_host_address(&self) -> (b: bool) {
        IpInet::is_host_address(self)
    }

    fn mask(&self) -> (mask: IpAddr) {
        IpInet::mask(self)
    }

    fn contains(&self, addr: &IpAddr) -> (b: bool) {
        IpInet::contains(self, addr)
    }
}

} // verus!
