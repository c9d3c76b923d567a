//! IPv4 networks.

use vstd::prelude::*;
use crate::address::Ipv4Addr;
use crate::cidr::Ipv4Cidr;
use crate::errors::{NetworkLengthTooLongError, NetworkParseError};
use crate::family::Family;
use crate::inet::Ipv4Inet;
use crate::inet_iterator::InetIterator;
use crate::inet_pair::Ipv4InetPair;
use crate::internal_traits::{Ipv4AddrTools, PrivCidr};
use crate::prefix_math::{
    block_size,
    has_zero_host_part,
    last_address,
    lemma_parts,
    network_mask,
    prefix_match,
    span_hosts,
    Prefix,
    Span,
};
use crate::traits::Cidr;

verus! {

impl View for Ipv4Cidr {
    type V = Prefix;

    /// The first address of the network and its length, as numbers.
    open(crate) spec fn view(&self) -> Prefix {
        Prefix { address: self.address@, length: self.network_length as nat }
    }
}

impl Ipv4Cidr {
    /// What holds of every value: the network length is at most 32, and
    /// the host part of the address is zero.
    pub open spec fn wf(self) -> bool {
        &&& self@.length <= 32
        &&& self@.address < 0x1_0000_0000
        &&& has_zero_host_part(self@.address, 32, self@.length)
    }

    #[verifier::type_invariant]
    pub(crate) open spec fn inv(self) -> bool {
        self.wf()
    }

    /// Create new network from address and prefix length.  If the
    /// network length exceeds the address length or the address is not
    /// the first address in the network ("host part not zero") an
    /// error is returned.
    pub fn new(addr: Ipv4Addr, len: u8) -> (r: Result<Self, NetworkParseError>)
        ensures
            len > 32 ==> r == Err::<Self, _>(
                NetworkParseError::NetworkLengthTooLongError(
                    NetworkLengthTooLongError(len as usize, Family::Ipv4),
                ),
            ),
            len <= 32 && !has_zero_host_part(addr@, 32, len as nat) ==> r == Err::<Self, _>(
                NetworkParseError::InvalidHostPart,
            ),
            len <= 32 && has_zero_host_part(addr@, 32, len as nat) ==> r is Ok && r->Ok_0@ == (
            Prefix { address: addr@, length: len as nat }),
    {
        if len > Family::Ipv4.len() {
            Err(
                NetworkParseError::NetworkLengthTooLongError(
                    NetworkLengthTooLongError::new(len as usize, Family::Ipv4),
                ),
            )
        } else if !Ipv4AddrTools::_has_zero_host_part(addr, len) {
            Err(NetworkParseError::InvalidHostPart)
        } else {
            proof {
                addr.lemma_bounded();
            }
            Ok(Ipv4Cidr { address: addr, network_length: len })
        }
    }

    /// Create a network containing a single address (network length =
    /// address length).
    pub fn new_host(addr: Ipv4Addr) -> (cidr: Self)
        ensures
            cidr@ == (Prefix { address: addr@, length: 32 }),
    {
        proof {
            addr.lemma_bounded();
            crate::bit_math::lemma_pow2_widths();
        }
        Ipv4Cidr { address: addr, network_length: Family::Ipv4.len() }
    }

    /// First address in the network as plain address.
    pub fn first_address(&self) -> (addr: Ipv4Addr)
        ensures
            addr@ == self@.address,
    {
        self.address
    }

    /// First address in the network.
    pub fn first(&self) -> (inet: Ipv4Inet)
        ensures
            inet@ == self@,
    {
        proof {
            use_type_invariant(self);
        }
        Ipv4Inet { address: self.first_address(), network_length: self.network_length }
    }

    /// Last address in the network as plain address.
    pub fn last_address(&self) -> (addr: Ipv4Addr)
        ensures
            addr@ == last_address(self@.address, 32, self@.length),
    {
        Ipv4AddrTools::_last_address(self.address, self.network_length)
    }

    /// Last address in the network.
    pub fn last(&self) -> (inet: Ipv4Inet)
        ensures
            inet@ == (Prefix {
                address: last_address(self@.address, 32, self@.length),
                length: self@.length,
            }),
    {
        let address = self.last_address();
        proof {
            use_type_invariant(self);
            address.lemma_bounded();
        }
        Ipv4Inet { address, network_length: self.network_length }
    }

    /// Length in bits of the shared prefix of the contained addresses.
    pub fn network_length(&self) -> (len: u8)
        ensures
            len as nat == self@.length,
            len <= 32,
    {
        proof {
            use_type_invariant(self);
        }
        self.network_length
    }

    /// IP family of the contained address.
    pub fn family(&self) -> (family: Family)
        ensures
            family == Family::Ipv4,
    {
        Family::Ipv4
    }

    /// Whether network represents a single host address.
    pub fn is_host_address(&self) -> (b: bool)
        ensures
            b == (self@.length == 32),
    {
        self.network_length() == self.family().len()
    }

    /// Network mask: an pseudo address which has the first `network
    /// length` bits set to 1 and the remaining to 0.
    pub fn mask(&self) -> (mask: Ipv4Addr)
        ensures
            mask@ == network_mask(32, self@.length),
    {
        Ipv4AddrTools::_network_mask(self.network_length)
    }

    /// Check whether an address is contained in the network.
    pub fn contains(&self, addr: &Ipv4Addr) -> (b: bool)
        ensures
            b == prefix_match(self@.address, addr@, 32, self@.length),
            b == (self@.address <= addr@ <= last_address(self@.address, 32, self@.length)),
    {
        proof {
            use_type_invariant(self);
            addr.lemma_bounded();
            crate::bit_math::lemma_pow2_widths();
            crate::prefix_math::lemma_match_is_range(self@.address, addr@, 32, self@.length);
        }
        Ipv4AddrTools::_prefix_match(self.address, *addr, self.network_length)
    }
}

impl Ipv4Cidr {
    /// Iterate over all addresses in the range.
    pub fn iter(&self) -> (it: InetIterator<Ipv4Addr>)
        ensures
            it.remaining() == span_hosts(
                Span {
                    first: self@.address,
                    second: last_address(self@.address, 32, self@.length),
                    length: self@.length,
                },
            ),
            it.remaining().len() == block_size(32, self@.length),
            it.family() == Family::Ipv4,
    {
        proof {
            use_type_invariant(self);
            crate::bit_math::lemma_pow2_widths();
            lemma_parts(self@.address, 32, self@.length);
            crate::prefix_math::lemma_block_size(32, self@.length);
        }
        self._range_pair().iter()
    }

    /// The first and the last address of the network, as a pair.
    pub fn _range_pair(&self) -> (pair: Ipv4InetPair)
        ensures
            pair@ == (Span {
                first: self@.address,
                second: last_address(self@.address, 32, self@.length),
                length: self@.length,
            }),
    {
        let second = self.last_address();
        proof {
            use_type_invariant(self);
            crate::bit_math::lemma_pow2_widths();
            lemma_parts(self@.address, 32, self@.length);
            crate::prefix_math::lemma_match_is_range(
                self@.address,
                last_address(self@.address, 32, self@.length),
                32,
                self@.length,
            );
        }
        Ipv4InetPair { first: self.first_address(), second, network_length: self.network_length }
    }
}

impl Cidr for Ipv4Cidr {
    type Address = Ipv4Addr;

    type Inet = Ipv4Inet;

    type InetPair = Ipv4InetPair;

    fn new(addr: Ipv4Addr, len: u8) -> (r: Result<Self, NetworkParseError>) {
        Ipv4Cidr::new(addr, len)
    }

    fn new_host(addr: Ipv4Addr) -> (cidr: Self) {
        Ipv4Cidr::new_host(addr)
    }

    fn first_address(&self) -> (addr: Ipv4Addr) {
        Ipv4Cidr::first_address(self)
    }

    fn first(&self) -> (inet: Ipv4Inet) {
        Ipv4Cidr::first(self)
    }

    fn last_address(&self) -> (addr: Ipv4Addr) {
        Ipv4Cidr::last_address(self)
    }

    fn last(&self) -> (inet: Ipv4Inet) {
        Ipv4Cidr::last(self)
    }

    fn network_length(&self) -> (len: u8) {
        Ipv4Cidr::network_length(self)
    }

    fn family(&self) -> (family: Family) {
        Ipv4Cidr::family(self)
    }

    fn is_host_address(&self) -> (b: bool) {
        Ipv4Cidr::is_host_address(self)
    }

    fn mask(&self) -> (mask: Ipv4Addr) {
        Ipv4Cidr::mask(self)
    }

    fn contains(&self, addr: &Ipv4Addr) -> (b: bool) {
        Ipv4Cidr::contains(self, addr)
    }

    fn _range_pair(&self) -> (pair: Ipv4InetPair) {
        Ipv4Cidr::_range_pair(self)
    }
}

impl PrivCidr for Ipv4Cidr {
    open spec fn _family(&self) -> Family {
        Family::Ipv4
    }

    open spec fn _prefix(&self) -> Prefix {
        self@
    }
}

} // verus!
