//! IPv6 networks.

use vstd::prelude::*;
use crate::address::Ipv6Addr;
use crate::cidr::Ipv6Cidr;
use crate::errors::{NetworkLengthTooLongError, NetworkParseError};
use crate::family::Family;
use crate::inet::Ipv6Inet;
use crate::inet_iterator::InetIterator;
use crate::inet_pair::Ipv6InetPair;
use crate::internal_traits::{Ipv6AddrTools, PrivCidr};
use crate::prefix_math::{
    block_size,
    has_zero_host_part,
    last_address,
    lemma_parts,
    network_mask,
    prefix_match,
    span_hosts,
    Prefix,
    Span,
};
use crate::traits::Cidr;

verus! {

impl View for Ipv6Cidr {
    type V = Prefix;

    /// The first address of the network and its length, as numbers.
    open(crate) spec fn view(&self) -> Prefix {
        Prefix { address: self.address@, length: self.network_length as nat }
    }
}

impl Ipv6Cidr {
    /// What holds of every value: the network length is at most 128, and
    /// the host part of the address is zero.
    pub open spec fn wf(self) -> bool {
        &&& self@.length <= 128
        &&& self@.address < 0x1_0000_0000_0000_0000_0000_0000_0000_0000
        &&& has_zero_host_part(self@.address, 128, self@.length)
    }

    #[verifier::type_invariant]
    pub(crate) open spec fn inv(self) -> bool {
        self.wf()
    }

    /// Create new network from address and prefix length.  If the
    /// network length exceeds the address length or the address is not
    /// the first address in the network ("host part not zero") an
    /// error is returned.
    pub fn new(addr: Ipv6Addr, len: u8) -> (r: Result<Self, NetworkParseError>)
        ensures
            len > 128 ==> r == Err::<Self, _>(
                NetworkParseError::NetworkLengthTooLongError(
                    NetworkLengthTooLongError(len as usize, Family::Ipv6),
                ),
            ),
            len <= 128 && !has_zero_host_part(addr@, 128, len as nat) ==> r == Err::<Self, _>(
                NetworkParseError::InvalidHostPart,
            ),
            len <= 128 && has_zero_host_part(addr@, 128, len as nat) ==> r is Ok && r->Ok_0@ == (
            Prefix { address: addr@, length: len as nat }),
    {
        if len > Family::Ipv6.len() {
            Err(
                NetworkParseError::NetworkLengthTooLongError(
                    NetworkLengthTooLongError::new(len as usize, Family::Ipv6),
                ),
            )
        } else if !Ipv6AddrTools::_has_zero_host_part(addr, len) {
            Err(NetworkParseError::InvalidHostPart)
        } else {
            proof {
                addr.lemma_bounded();
            }
            Ok(Ipv6Cidr { address: addr, network_length: len })
        }
    }

    /// Create a network containing a single address (network length =
    /// address length).
    pub fn new_host(addr: Ipv6Addr) -> (cidr: Self)
        ensures
            cidr@ == (Prefix { address: addr@, length: 128 }),
    {
        proof {
            addr.lemma_bounded();
            crate::bit_math::lemma_pow2_widths();
        }
        Ipv6Cidr { address: addr, network_length: Family::Ipv6.len() }
    }

    /// First address in the network as plain address.
    pub fn first_address(&self) -> (addr: Ipv6Addr)
        ensures
            addr@ == self@.address,
    {
        self.address
    }

    /// First address in the network.
    pub fn first(&self) -> (inet: Ipv6Inet)
        ensures
            inet@ == self@,
    {
        proof {
            use_type_invariant(self);
        }
        Ipv6Inet { address: self.first_address(), network_length: self.network_length }
    }

    /// Last address in the network as plain address.
    pub fn last_address(&self) -> (addr: Ipv6Addr)
        ensures
            addr@ == last_address(self@.address, 128, self@.length),
    {
        Ipv6AddrTools::_last_address(self.address, self.network_length)
    }

    /// Last address in the network.
    pub fn last(&self) -> (inet: Ipv6Inet)
        ensures
            inet@ == (Prefix {
                address: last_address(self@.address, 128, self@.length),
                length: self@.length,
            }),
    {
        let address = self.last_address();
        proof {
            use_type_invariant(self);
            address.lemma_bounded();
        }
        Ipv6Inet { address, network_length: self.network_length }
    }

    /// Length in bits of the shared prefix of the contained addresses.
    pub fn network_length(&self) -> (len: u8)
        ensures
            len as nat == self@.length,
            len <= 128,
    {
        proof {
            use_type_invariant(self);
        }
        self.network_length
    }

    /// IP family of the contained address.
    pub fn family(&self) -> (family: Family)
        ensures
            family == Family::Ipv6,
    {
        Family::Ipv6
    }

    /// Whether network represents a single host address.
    pub fn is_host_address(&self) -> (b: bool)
        ensures
            b == (self@.length == 128),
    {
        self.network_length() == self.family().len()
    }

    /// Network mask: an pseudo address which has the first `network
    /// length` bits set to 1 and the remaining to 0.
    pub fn mask(&self) -> (mask: Ipv6Addr)
        ensures
            mask@ == network_mask(128, self@.length),
    {
        Ipv6AddrTools::_network_mask(self.network_length)
    }

    /// Check whether an address is contained in the network.
    pub fn contains(&self, addr: &Ipv6Addr) -> (b: bool)
        ensures
            b == prefix_match(self@.address, addr@, 128, self@.length),
            b == (self@.address <= addr@ <= last_address(self@.address, 128, self@.length)),
    {
        proof {
            use_type_invariant(self);
            addr.lemma_bounded();
            crate::bit_math::lemma_pow2_widths();
            crate::prefix_math::lemma_match_is_range(self@.address, addr@, 128, self@.length);
        }
        Ipv6AddrTools::_prefix_match(self.address, *addr, self.network_length)
    }
}

impl Ipv6Cidr {
    /// Iterate over all addresses in the range.
    pub fn iter(&self) -> (it: InetIterator<Ipv6Addr>)
        ensures
            it.remaining() == span_hosts(
                Span {
                    first: self@.address,
                    second: last_address(self@.address, 128, self@.length),
                    length: self@.length,
                },
            ),
            it.remaining().len() == block_size(128, self@.length),
            it.family() == Family::Ipv6,
    {
        proof {
            use_type_invariant(self);
            crate::bit_math::lemma_pow2_widths();
            lemma_parts(self@.address, 128, self@.length);
            crate::prefix_math::lemma_block_size(128, self@.length);
        }
        self._range_pair().iter()
    }

    /// The first and the last address of the network, as a pair.
    pub fn _range_pair(&self) -> (pair: Ipv6InetPair)
        ensures
            pair@ == (Span {
                first: self@.address,
                second: last_address(self@.address, 128, self@.length),
                length: self@.length,
            }),
    {
        let second = self.last_address();
        proof {
            use_type_invariant(self);
            crate::bit_math::lemma_pow2_widths();
            lemma_parts(self@.address, 128, self@.length);
            crate::prefix_math::lemma_match_is_range(
                self@.address,
                last_address(self@.address, 128, self@.length),
                128,
                self@.length,
            );
        }
        Ipv6InetPair { first: self.first_address(), second, network_length: self.network_length }
    }
}

impl Cidr for Ipv6Cidr {
    type Address = Ipv6Addr;

    type Inet = Ipv6Inet;

    type InetPair = Ipv6InetPair;

    fn new(addr: Ipv6Addr, len: u8) -> (r: Result<Self, NetworkParseError>) {
        Ipv6Cidr::new(addr, len)
    }

    fn new_host(addr: Ipv6Addr) -> (cidr: Self) {
        Ipv6Cidr::new_host(addr)
    }

    fn first_address(&self) -> (addr: Ipv6Addr) {
        Ipv6Cidr::first_address(self)
    }

    fn first(&self) -> (inet: Ipv6Inet) {
        Ipv6Cidr::first(self)
    }

    fn last_address(&self) -> (addr: Ipv6Addr) {
        Ipv6Cidr::last_address(self)
    }

    fn last(&self) -> (inet: Ipv6Inet) {
        Ipv6Cidr::last(self)
    }

    fn network_length(&self) -> (len: u8) {
        Ipv6Cidr::network_length(self)
    }

    fn family(&self) -> (family: Family) {
        Ipv6Cidr::family(self)
    }

    fn is_host_address(&self) -> (b: bool) {
        Ipv6Cidr::is_host_address(self)
    }

    fn mask(&self) -> (mask: Ipv6Addr) {
        Ipv6Cidr::mask(self)
    }

    fn contains(&self, addr: &Ipv6Addr) -> (b: bool) {
        Ipv6Cidr::contains(self, addr)
    }

    fn _range_pair(&self) -> (pair: Ipv6InetPair) {
        Ipv6Cidr::_range_pair(self)
    }
}

impl PrivCidr for Ipv6Cidr {
    open spec fn _family(&self) -> Family {
        Family::Ipv6
    }

    open spec fn _prefix(&self) -> Prefix {
        self@
    }
}

} // verus!
