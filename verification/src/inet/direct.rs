//! Hosts within IPv4 networks.

use vstd::prelude::*;
use crate::address::Ipv4Addr;
use crate::cidr::Ipv4Cidr;
use crate::errors::NetworkLengthTooLongError;
use crate::family::Family;
use crate::inet::Ipv4Inet;
use crate::internal_traits::{Ipv4AddrTools, PrivInet};
use crate::prefix_math::{
    last_address,
    lemma_network_idempotent,
    network_address,
    network_mask,
    prefix_match,
    step_backward,
    step_forward,
    Prefix,
};
use crate::traits::Inet;

verus! {

impl View for Ipv4Inet {
    type V = Prefix;

    /// The host's address and the length of its network, as numbers.
    open(crate) spec fn view(&self) -> Prefix {
        Prefix { address: self.address@, length: self.network_length as nat }
    }
}

impl Ipv4Inet {
    /// What holds of every value: the network length is at most 32.
    pub open spec fn wf(self) -> bool {
        &&& self@.length <= 32
        &&& self@.address < 0x1_0000_0000
    }

    #[verifier::type_invariant]
    pub(crate) open spec fn inv(self) -> bool {
        self.wf()
    }

    /// Create new host within a network from address and prefix length.
    /// If the network length exceeds the address length an error is
    /// returned.
    pub fn new(addr: Ipv4Addr, len: u8) -> (r: Result<Self, NetworkLengthTooLongError>)
        ensures
            len <= 32 ==> r is Ok && r->Ok_0@ == (Prefix { address: addr@, length: len as nat }),
            len > 32 ==> r == Err::<Self, _>(NetworkLengthTooLongError(len as usize, Family::Ipv4)),
    {
        if len > Family::Ipv4.len() {
            Err(NetworkLengthTooLongError::new(len as usize, Family::Ipv4))
        } else {
            proof {
                addr.lemma_bounded();
            }
            Ok(Ipv4Inet { address: addr, network_length: len })
        }
    }

    /// Create a network containing a single address as host and the
    /// network (network length = address length).
    pub fn new_host(addr: Ipv4Addr) -> (inet: Self)
        ensures
            inet@ == (Prefix { address: addr@, length: 32 }),
    {
        proof {
            addr.lemma_bounded();
        }
        Ipv4Inet { address: addr, network_length: Family::Ipv4.len() }
    }

    /// Increments host part (without changing the network part);
    /// returns true on wrap around.
    pub fn increment(&mut self) -> (overflow: bool)
        ensures
            final(self)@.length == old(self)@.length,
            (final(self)@.address, overflow) == step_forward(
                old(self)@.address,
                32,
                old(self)@.length,
                1,
            ),
    {
        let (address, overflow) = Ipv4AddrTools::_overflowing_next(
            self.address,
            self.network_length,
        );
        proof {
            use_type_invariant(&*self);
            address.lemma_bounded();
        }
        self.address = address;
        overflow
    }

    /// Returns next address in network or `None` if it was the last address in the network.
    pub fn next(self) -> (r: Option<Self>)
        ensures
            r is None <==> step_forward(self@.address, 32, self@.length, 1).1,
            r is Some ==> r->Some_0@ == (Prefix {
                address: step_forward(self@.address, 32, self@.length, 1).0,
                length: self@.length,
            }),
    {
        let (address, overflow) = Ipv4AddrTools::_overflowing_next(
            self.address,
            self.network_length,
        );
        if overflow {
            None
        } else {
            proof {
                use_type_invariant(&self);
                address.lemma_bounded();
            }
            Some(Ipv4Inet { address, network_length: self.network_length })
        }
    }

    /// Decrements host part (without changing the network part);
    /// returns true on wrap around.
    pub fn decrement(&mut self) -> (overflow: bool)
        ensures
            final(self)@.length == old(self)@.length,
            (final(self)@.address, overflow) == step_backward(
                old(self)@.address,
                32,
                old(self)@.length,
                1,
            ),
    {
        let (address, overflow) = Ipv4AddrTools::_overflowing_prev(
            self.address,
            self.network_length,
        );
        proof {
            use_type_invariant(&*self);
            address.lemma_bounded();
        }
        self.address = address;
        overflow
    }

    /// Returns previous address in network or `None` if it was the first address in the network.
    pub fn previous(self) -> (r: Option<Self>)
        ensures
            r is None <==> step_backward(self@.address, 32, self@.length, 1).1,
            r is Some ==> r->Some_0@ == (Prefix {
                address: step_backward(self@.address, 32, self@.length, 1).0,
                length: self@.length,
            }),
    {
        let (address, overflow) = Ipv4AddrTools::_overflowing_prev(
            self.address,
            self.network_length,
        );
        if overflow {
            None
        } else {
            proof {
                use_type_invariant(&self);
                address.lemma_bounded();
            }
            Some(Ipv4Inet { address, network_length: self.network_length })
        }
    }

    /// Find the nth host after the current one in the current network.
    ///
    /// Returned boolean indicates whether an overflow occured.
    pub fn overflowing_add(self, step: u128) -> (r: (Self, bool))
        ensures
            r.0@.length == self@.length,
            (r.0@.address, r.1) == step_forward(self@.address, 32, self@.length, step as nat),
    {
        let (address, overflow) = Ipv4AddrTools::_overflowing_inc(
            self.address,
            self.network_length,
            step,
        );
        proof {
            use_type_invariant(&self);
            address.lemma_bounded();
        }
        (Ipv4Inet { address, network_length: self.network_length }, overflow)
    }

    /// Find the nth host before the current one in the current network.
    ///
    /// Returned boolean indicates whether an overflow occured.
    pub fn overflowing_sub(self, step: u128) -> (r: (Self, bool))
        ensures
            r.0@.length == self@.length,
            (r.0@.address, r.1) == step_backward(self@.address, 32, self@.length, step as nat),
    {
        let (address, overflow) = Ipv4AddrTools::_overflowing_dec(
            self.address,
            self.network_length,
            step,
        );
        proof {
            use_type_invariant(&self);
            address.lemma_bounded();
        }
        (Ipv4Inet { address, network_length: self.network_length }, overflow)
    }

    /// Find the nth host after the current one in the current network
    /// (32-bit IPv4 variant).
    ///
    /// Returned boolean indicates whether an overflow occured.
    pub fn overflowing_add_u32(self, step: u32) -> (r: (Self, bool))
        ensures
            r.0@.length == self@.length,
            (r.0@.address, r.1) == step_forward(self@.address, 32, self@.length, step as nat),
    {
        let (address, overflow) = Ipv4AddrTools::_overflowing_inc_u32(
            self.address,
            self.network_length,
            step,
        );
        proof {
            use_type_invariant(&self);
            address.lemma_bounded();
        }
        (Ipv4Inet { address, network_length: self.network_length }, overflow)
    }

    /// Find the nth host before the current one in the current network
    /// (32-bit IPv4 variant).
    ///
    /// Returned boolean indicates whether an overflow occured.
    pub fn overflowing_sub_u32(self, step: u32) -> (r: (Self, bool))
        ensures
            r.0@.length == self@.length,
            (r.0@.address, r.1) == step_backward(self@.address, 32, self@.length, step as nat),
    {
        let (address, overflow) = Ipv4AddrTools::_overflowing_dec_u32(
            self.address,
            self.network_length,
            step,
        );
        proof {
            use_type_invariant(&self);
            address.lemma_bounded();
        }
        (Ipv4Inet { address, network_length: self.network_length }, overflow)
    }

    /// Network (i.e. drops the host information).
    pub fn network(&self) -> (cidr: Ipv4Cidr)
        ensures
            cidr@ == (Prefix {
                address: network_address(self@.address, 32, self@.length),
                length: self@.length,
            }),
    {
        let first = self.first_address();
        proof {
            use_type_invariant(self);
            crate::bit_math::lemma_pow2_widths();
            lemma_network_idempotent(self@.address, 32, self@.length);
            first.lemma_bounded();
        }
        Ipv4Cidr { address: first, network_length: self.network_length }
    }

    /// The host.
    pub fn address(&self) -> (addr: Ipv4Addr)
        ensures
            addr@ == self@.address,
    {
        self.address
    }

    /// First address in the network as plain address.
    pub fn first_address(&self) -> (addr: Ipv4Addr)
        ensures
            addr@ == network_address(self@.address, 32, self@.length),
    {
        Ipv4AddrTools::_network_address(self.address, self.network_length)
    }

    /// First address in the network.
    pub fn first(&self) -> (inet: Self)
        ensures
            inet@ == (Prefix {
                address: network_address(self@.address, 32, self@.length),
                length: self@.length,
            }),
    {
        let address = self.first_address();
        proof {
            use_type_invariant(self);
            address.lemma_bounded();
        }
        Ipv4Inet { address, network_length: self.network_length }
    }

    /// Last address in the network as plain address.
    pub fn last_address(&self) -> (addr: Ipv4Addr)
        ensures
            addr@ == last_address(self@.address, 32, self@.length),
    {
        Ipv4AddrTools::_last_address(self.address, self.network_length)
    }

    /// Last address in the network.
    pub fn last(&self) -> (inet: Self)
        ensures
            inet@ == (Prefix {
                address: last_address(self@.address, 32, self@.length),
                length: self@.length,
            }),
    {
        let address = self.last_address();
        proof {
            use_type_invariant(self);
            address.lemma_bounded();
        }
        Ipv4Inet { address, network_length: self.network_length }
    }

    /// Length in bits of the shared prefix of the contained addresses.
    pub fn network_length(&self) -> (len: u8)
        ensures
            len as nat == self@.length,
            len <= 32,
    {
        proof {
            use_type_invariant(self);
        }
        self.network_length
    }

    /// IP family of the contained address.
    pub fn family(&self) -> (family: Family)
        ensures
            family == Family::Ipv4,
    {
        Family::Ipv4
    }

    /// Whether network represents a single host address.
    pub fn is_host_address(&self) -> (b: bool)
        ensures
            b == (self@.length == 32),
    {
        self.network_length() == self.family().len()
    }

    /// Network mask: an pseudo address which has the first `network
    /// length` bits set to 1 and the remaining to 0.
    pub fn mask(&self) -> (mask: Ipv4Addr)
        ensures
            mask@ == network_mask(32, self@.length),
    {
        Ipv4AddrTools::_network_mask(self.network_length)
    }

    /// Check whether an address is contained in the network.
    pub fn contains(&self, addr: &Ipv4Addr) -> (b: bool)
        ensures
            b == prefix_match(self@.address, addr@, 32, self@.length),
    {
        Ipv4AddrTools::_prefix_match(self.address, *addr, self.network_length)
    }
}

impl Inet for Ipv4Inet {
    type Address = Ipv4Addr;

    type Cidr = Ipv4Cidr;

    fn new(addr: Ipv4Addr, len: u8) -> (r: Result<Self, NetworkLengthTooLongError>) {
        Ipv4Inet::new(addr, len)
    }

    fn new_host(addr: Ipv4Addr) -> (inet: Self) {
        Ipv4Inet::new_host(addr)
    }

    fn increment(&mut self) -> (overflow: bool) {
        Ipv4Inet::increment(self)
    }

    fn next(self) -> (r: Option<Self>) {
        Ipv4Inet::next(self)
    }

    fn decrement(&mut self) -> (overflow: bool) {
        Ipv4Inet::decrement(self)
    }

    fn previous(self) -> (r: Option<Self>) {
        Ipv4Inet::previous(self)
    }

    fn overflowing_add(self, step: u128) -> (r: (Self, bool)) {
        Ipv4Inet::overflowing_add(self, step)
    }

    fn overflowing_sub(self, step: u128) -> (r: (Self, bool)) {
        Ipv4Inet::overflowing_sub(self, step)
    }

    fn network(&self) -> (cidr: Ipv4Cidr) {
        Ipv4Inet::network(self)
    }

    fn address(&self) -> (addr: Ipv4Addr) {
        Ipv4Inet::address(self)
    }

    fn first_address(&self) -> (addr: Ipv4Addr) {
        Ipv4Inet::first_address(self)
    }

    fn first(&self) -> (inet: Self) {
        Ipv4Inet::first(self)
    }

    fn last_address(&self) -> (addr: Ipv4Addr) {
        Ipv4Inet::last_address(self)
    }

    fn last(&self) -> (inet: Self) {
        Ipv4Inet::last(self)
    }

    fn network_length(&self) -> (len: u8) {
        Ipv4Inet::network_length(self)
    }

    fn family(&self) -> (family: Family) {
        Ipv4Inet::family(self)
    }

    fn is_host_address(&self) -> (b: bool) {
        Ipv4Inet::is_host_address(self)
    }

    fn mask(&self) -> (mask: Ipv4Addr) {
        Ipv4Inet::mask(self)
    }

    fn contains(&self, addr: &Ipv4Addr) -> (b: bool) {
        Ipv4Inet::contains(self, addr)
    }
}

impl PrivInet for Ipv4Inet {
    open spec fn _family(&self) -> Family {
        Family::Ipv4
    }

    open spec fn _prefix(&self) -> Prefix {
        self@
    }
}

} // verus!
