//! Networks of either family.

use vstd::prelude::*;
use crate::address::IpAddr;
use crate::cidr::{IpCidr, Ipv4Cidr, Ipv6Cidr};
use crate::errors::{NetworkLengthTooLongError, NetworkParseError};
use crate::family::Family;
use crate::inet::IpInet;
use crate::inet_iterator::InetIterator;
use crate::inet_pair::IpInetPair;
use crate::internal_traits::{PrivCidr, PrivInet, PrivInetPair, PrivUnspecAddress};
use crate::prefix_math::{
    block_size,
    has_zero_host_part,
    last_address,
    network_mask,
    prefix_match,
    span_hosts,
    Prefix,
    Span,
};
use crate::traits::Cidr;

verus! {

impl PrivCidr for IpCidr {
    open spec fn _family(&self) -> Family {
        match self {
            IpCidr::V4(_) => Family::Ipv4,
            IpCidr::V6(_) => Family::Ipv6,
        }
    }

    open spec fn _prefix(&self) -> Prefix {
        match self {
            IpCidr::V4(c) => c@,
            IpCidr::V6(c) => c@,
        }
    }
}

impl IpCidr {
    /// Whether representing an IPv4 network
    pub fn is_ipv4(&self) -> (b: bool)
        ensures
            b == (self._family() == Family::Ipv4),
    {
        match self {
            IpCidr::V4(_) => true,
            IpCidr::V6(_) => false,
        }
    }

    /// Whether representing an IPv6 network
    pub fn is_ipv6(&self) -> (b: bool)
        ensures
            b == (self._family() == Family::Ipv6),
    {
        match self {
            IpCidr::V4(_) => false,
            IpCidr::V6(_) => true,
        }
    }

    /// Create new network from address and prefix length.  If the
    /// network length exceeds the address length or the address is not
    /// the first address in the network ("host part not zero") an
    /// error is returned.
    pub fn new(addr: IpAddr, len: u8) -> (r: Result<Self, NetworkParseError>)
        ensures
            len > addr._family().width() ==> r == Err::<Self, _>(
                NetworkParseError::NetworkLengthTooLongError(
                    NetworkLengthTooLongError(len as usize, addr._family()),
                ),
            ),
            len <= addr._family().width() && !has_zero_host_part(
                addr._value(),
                addr._family().width(),
                len as nat,
            ) ==> r == Err::<Self, _>(NetworkParseError::InvalidHostPart),
            len <= addr._family().width() && has_zero_host_part(
                addr._value(),
                addr._family().width(),
                len as nat,
            ) ==> r is Ok && r->Ok_0._family() == addr._family() && r->Ok_0._prefix() == (Prefix {
                address: addr._value(),
                length: len as nat,
            }),
    {
        match addr {
            IpAddr::V4(a) => match Ipv4Cidr::new(a, len) {
                Ok(cidr) => Ok(IpCidr::V4(cidr)),
                Err(e) => Err(e),
            },
            IpAddr::V6(a) => match Ipv6Cidr::new(a, len) {
                Ok(cidr) => Ok(IpCidr::V6(cidr)),
                Err(e) => Err(e),
            },
        }
    }

    /// Create a network containing a single address (network length =
    /// address length).
    pub fn new_host(addr: IpAddr) -> (cidr: Self)
        ensures
            cidr._family() == addr._family(),
            cidr._prefix() == (Prefix { address: addr._value(), length: addr._family().width() }),
    {
        match addr {
            IpAddr::V4(a) => IpCidr::V4(Ipv4Cidr::new_host(a)),
            IpAddr::V6(a) => IpCidr::V6(Ipv6Cidr::new_host(a)),
        }
    }

    /// Iterate over all addresses in the range.  With IPv6 addresses
    /// this can produce really long iterations (up to 2<sup>128</sup>
    /// addresses).
    pub fn iter(&self) -> (it: InetIterator<IpAddr>)
        ensures
            it.remaining() == span_hosts(
                Span {
                    first: self._prefix().address,
                    second: last_address(
                        self._prefix().address,
                        self._family().width(),
                        self._prefix().length,
                    ),
                    length: self._prefix().length,
                },
            ),
            it.remaining().len() == block_size(self._family().width(), self._prefix().length),
            it.family() == self._family(),
    {
        proof {
            match self {
                IpCidr::V4(c) => {
                    use_type_invariant(c);
                    crate::bit_math::lemma_pow2_widths();
                    crate::prefix_math::lemma_parts(c@.address, 32, c@.length);
                    crate::prefix_math::lemma_block_size(32, c@.length);
                },
                IpCidr::V6(c) => {
                    use_type_invariant(c);
                    crate::bit_math::lemma_pow2_widths();
                    crate::prefix_math::lemma_parts(c@.address, 128, c@.length);
                    crate::prefix_math::lemma_block_size(128, c@.length);
                },
            }
        }
        self._range_pair().iter()
    }

    /// first address in the network as plain address
    pub fn first_address(&self) -> (addr: IpAddr)
        ensures
            addr._family() == self._family(),
            addr._value() == self._prefix().address,
    {
        match self {
            IpCidr::V4(c) => IpAddr::V4(c.first_address()),
            IpCidr::V6(c) => IpAddr::V6(c.first_address()),
        }
    }

    /// first address in the network
    pub fn first(&self) -> (inet: IpInet)
        ensures
            inet._family() == self._family(),
            inet._prefix() == self._prefix(),
    {
        match self {
            IpCidr::V4(c) => IpInet::V4(c.first()),
            IpCidr::V6(c) => IpInet::V6(c.first()),
        }
    }

    /// last address in the network as plain address
    pub fn last_address(&self) -> (addr: IpAddr)
        ensures
            addr._family() == self._family(),
            addr._value() == last_address(
                self._prefix().address,
                self._family().width(),
                self._prefix().length,
            ),
    {
        match self {
            IpCidr::V4(c) => IpAddr::V4(c.last_address()),
            IpCidr::V6(c) => IpAddr::V6(c.last_address()),
        }
    }

    /// last address in the network
    pub fn last(&self) -> (inet: IpInet)
        ensures
            inet._family() == self._family(),
            inet._prefix() == (Prefix {
                address: last_address(
                    self._prefix().address,
                    self._family().width(),
                    self._prefix().length,
                ),
                length: self._prefix().length,
            }),
    {
        match self {
            IpCidr::V4(c) => IpInet::V4(c.last()),
            IpCidr::V6(c) => IpInet::V6(c.last()),
        }
    }

    /// length in bits of the shared prefix of the contained addresses
    pub fn network_length(&self) -> (len: u8)
        ensures
            len as nat == self._prefix().length,
            len <= self._family().width(),
    {
        match self {
            IpCidr::V4(c) => c.network_length(),
            IpCidr::V6(c) => c.network_length(),
        }
    }

    /// IP family of the contained address (`Ipv4` or `Ipv6`).
    pub fn family(&self) -> (family: Family)
        ensures
            family == self._family(),
    {
        match self {
            IpCidr::V4(_) => Family::Ipv4,
            IpCidr::V6(_) => Family::Ipv6,
        }
    }

    /// whether network represents a single host address
    pub fn is_host_address(&self) -> (b: bool)
        ensures
            b == (self._prefix().length == self._family().width()),
    {
        match self {
            IpCidr::V4(c) => c.is_host_address(),
            IpCidr::V6(c) => c.is_host_address(),
        }
    }

    /// network mask: an pseudo address which has the first `network
    /// length` bits set to 1 and the remaining to 0.
    pub fn mask(&self) -> (mask: IpAddr)
        ensures
            mask._family() == self._family(),
            mask._value() == network_mask(self._family().width(), self._prefix().length),
    {
        match self {
            IpCidr::V4(c) => IpAddr::V4(c.mask()),
            IpCidr::V6(c) => IpAddr::V6(c.mask()),
        }
    }

    /// check whether an address is contained in the network
    pub fn contains(&self, addr: &IpAddr) -> (b: bool)
        ensures
            b == (addr._family() == self._family() && prefix_match(
                self._prefix().address,
                addr._value(),
                self._family().width(),
                self._prefix().length,
            )),
    {
        match self {
            IpCidr::V4(c) => match addr {
                IpAddr::V4(a) => c.contains(a),
                IpAddr::V6(_) => false,
            },
            IpCidr::V6(c) => match addr {
                IpAddr::V4(_) => false,
                IpAddr::V6(a) => c.contains(a),
            },
        }
    }

    /// The first and the last address of the network, as a pair.
    pub fn _range_pair(&self) -> (pair: IpInetPair)
        ensures
            pair._family() == self._family(),
            pair._span() == (Span {
                first: self._prefix().address,
                second: last_address(
                    self._prefix().address,
                    self._family().width(),
                    self._prefix().length,
                ),
                length: self._prefix().length,
            }),
    {
        match self {
            IpCidr::V4(c) => IpInetPair::V4(c._range_pair()),
            IpCidr::V6(c) => IpInetPair::V6(c._range_pair()),
        }
    }
}

impl Cidr for IpCidr {
    type Address = IpAddr;

    type Inet = IpInet;

    type InetPair = IpInetPair;

    fn new(addr: IpAddr, len: u8) -> (r: Result<Self, NetworkParseError>) {
        IpCidr::new(addr, len)
    }

    fn new_host(addr: IpAddr) -> (cidr: Self) {
        IpCidr::new_host(addr)
    }

    fn first_address(&self) -> (addr: IpAddr) {
        IpCidr::first_address(self)
    }

    fn first(&self) -> (inet: IpInet) {
        IpCidr::first(self)
    }

    fn last_address(&self) -> (addr: IpAddr) {
        IpCidr::last_address(self)
    }

    fn last(&self) -> (inet: IpInet) {
        IpCidr::last(self)
    }

    fn network_length(&self) -> (len: u8) {
        IpCidr::network_length(self)
    }

    fn family(&self) -> (family: Family) {
        IpCidr::family(self)
    }

    fn is_host_address(&self) -> (b: bool) {
        IpCidr::is_host_address(self)
    }

    fn mask(&self) -> (mask: IpAddr) {
        IpCidr::mask(self)
    }

    fn contains(&self, addr: &IpAddr) -> (b: bool) {
        IpCidr::contains(self, addr)
    }

    fn _range_pair(&self) -> (pair: IpInetPair) {
        IpCidr::_range_pair(self)
    }
}

} // verus!
