//! Networks of either family, or of none.

use vstd::prelude::*;
use crate::address::IpAddr;
use crate::bitstring::common_prefix_len;
use crate::cidr::bitstring::ipv4_bits;
use crate::cidr::bitstring_v6::ipv6_bits;
use crate::cidr::{IpCidr, Ipv4Cidr, Ipv6Cidr};
use crate::errors::{NetworkLengthTooLongError, NetworkParseError};
use crate::family::Family;
use crate::inet::IpInet;
use crate::internal_traits::{PrivCidr, PrivInet, PrivUnspecAddress};
use crate::prefix_math::{
    has_zero_host_part,
    last_address,
    network_address,
    network_mask,
    prefix_match,
    Prefix,
};

verus! {

/// Represents either an IPv4 or an IPv6 network or "any".
///
/// Allows for a bit string representation which treats "any" as the
/// empty string, IPv4 as starting with `false` and IPv6 as starting
/// with `true`. After the first bit the normal represenation for the
/// picked address-family follows.
///
/// Setting the first bit (using the bit string functions) always truncates
/// the bit string to length 1 (i.e. `/0` in the resulting family).
#[derive(Clone, Copy, PartialEq, Eq, Structural, Ord, Hash, Debug)]
pub enum AnyIpCidr {
    /// "any" network containing all IPv4 and IPv6 addresses
    Any,
    /// IPv4 network
    V4(Ipv4Cidr),
    /// IPv6 network
    V6(Ipv6Cidr),
}

impl AnyIpCidr {
    /// The network of one family that this is, if it is one.
    pub open spec fn network(self) -> Option<IpCidr> {
        match self {
            AnyIpCidr::Any => None,
            AnyIpCidr::V4(c) => Some(IpCidr::V4(c)),
            AnyIpCidr::V6(c) => Some(IpCidr::V6(c)),
        }
    }

    /// Whether representing any address
    pub fn is_any(&self) -> (b: bool)
        ensures
            b == (self.network() is None),
    {
        match self {
            AnyIpCidr::Any => true,
            _ => false,
        }
    }

    /// Whether representing an IPv4 network
    pub fn is_ipv4(&self) -> (b: bool)
        ensures
            b == (*self is V4),
    {
        match self {
            AnyIpCidr::V4(_) => true,
            _ => false,
        }
    }

    /// Whether representing an IPv6 network
    pub fn is_ipv6(&self) -> (b: bool)
        ensures
            b == (*self is V6),
    {
        match self {
            AnyIpCidr::V6(_) => true,
            _ => false,
        }
    }

    /// Create new network from address and prefix length.  If the
    /// network length exceeds the address length or the address is not
    /// the first address in the network ("host part not zero") an error
    /// is returned.
    pub fn new(addr: IpAddr, len: u8) -> (r: Result<Self, NetworkParseError>)
        ensures
            len > addr._family().width() ==> r == Err::<Self, _>(
                NetworkParseError::NetworkLengthTooLongError(
                    NetworkLengthTooLongError(len as usize, addr._family()),
                ),
            ),
            len <= addr._family().width() && !has_zero_host_part(
                addr._value(),
                addr._family().width(),
                len as nat,
            ) ==> r == Err::<Self, _>(NetworkParseError::InvalidHostPart),
            len <= addr._family().width() && has_zero_host_part(
                addr._value(),
                addr._family().width(),
                len as nat,
            ) ==> {
                &&& r is Ok
                &&& r->Ok_0.network() is Some
                &&& r->Ok_0.network()->Some_0._family() == addr._family()
                &&& r->Ok_0.network()->Some_0._prefix() == (Prefix {
                    address: addr._value(),
                    length: len as nat,
                })
            },
    {
        match addr {
            IpAddr::V4(a) => match Ipv4Cidr::new(a, len) {
                Ok(cidr) => Ok(AnyIpCidr::V4(cidr)),
                Err(e) => Err(e),
            },
            IpAddr::V6(a) => match Ipv6Cidr::new(a, len) {
                Ok(cidr) => Ok(AnyIpCidr::V6(cidr)),
                Err(e) => Err(e),
            },
        }
    }

    /// Create a network containing a single address (network length =
    /// address length).
    pub fn new_host(addr: IpAddr) -> (cidr: Self)
        ensures
            cidr.network() is Some,
            cidr.network()->Some_0._family() == addr._family(),
            cidr.network()->Some_0._prefix() == (Prefix {
                address: addr._value(),
                length: addr._family().width(),
            }),
    {
        match addr {
            IpAddr::V4(a) => AnyIpCidr::V4(Ipv4Cidr::new_host(a)),
            IpAddr::V6(a) => AnyIpCidr::V6(Ipv6Cidr::new_host(a)),
        }
    }

    /// first address in the network as plain address
    ///
    /// returns `None` for `Any`
    pub fn first_address(&self) -> (addr: Option<IpAddr>)
        ensures
            addr is None <==> self.network() is None,
            addr is Some ==> {
                &&& addr->Some_0._family() == self.network()->Some_0._family()
                &&& addr->Some_0._value() == self.network()->Some_0._prefix().address
            },
    {
        match self {
            AnyIpCidr::Any => None,
            AnyIpCidr::V4(c) => Some(IpAddr::V4(c.first_address())),
            AnyIpCidr::V6(c) => Some(IpAddr::V6(c.first_address())),
        }
    }

    /// first address in the network
    ///
    /// returns `None` for `Any`
    pub fn first(&self) -> (inet: Option<IpInet>)
        ensures
            inet is None <==> self.network() is None,
            inet is Some ==> {
                &&& inet->Some_0._family() == self.network()->Some_0._family()
                &&& inet->Some_0._prefix() == self.network()->Some_0._prefix()
            },
    {
        match self {
            AnyIpCidr::Any => None,
            AnyIpCidr::V4(c) => Some(IpInet::V4(c.first())),
            AnyIpCidr::V6(c) => Some(IpInet::V6(c.first())),
        }
    }

    /// last address in the network as plain address
    ///
    /// returns `None` for `Any`
    pub fn last_address(&self) -> (addr: Option<IpAddr>)
        ensures
            addr is None <==> self.network() is None,
            addr is Some ==> {
                &&& addr->Some_0._family() == self.network()->Some_0._family()
                &&& addr->Some_0._value() == last_address(
                    self.network()->Some_0._prefix().address,
                    self.network()->Some_0._family().width(),
                    self.network()->Some_0._prefix().length,
                )
            },
    {
        match self {
            AnyIpCidr::Any => None,
            AnyIpCidr::V4(c) => Some(IpAddr::V4(c.last_address())),
            AnyIpCidr::V6(c) => Some(IpAddr::V6(c.last_address())),
        }
    }

    /// last address in the network
    ///
    /// returns `None` for `Any`
    pub fn last(&self) -> (inet: Option<IpInet>)
        ensures
            inet is None <==> self.network() is None,
            inet is Some ==> {
                &&& inet->Some_0._family() == self.network()->Some_0._family()
                &&& inet->Some_0._prefix() == (Prefix {
                    address: last_address(
                        self.network()->Some_0._prefix().address,
                        self.network()->Some_0._family().width(),
                        self.network()->Some_0._prefix().length,
                    ),
                    length: self.network()->Some_0._prefix().length,
                })
            },
    {
        match self {
            AnyIpCidr::Any => None,
            AnyIpCidr::V4(c) => Some(IpInet::V4(c.last())),
            AnyIpCidr::V6(c) => Some(IpInet::V6(c.last())),
        }
    }

    /// length in bits of the shared prefix of the contained addresses
    ///
    /// returns `None` for `Any`
    pub fn network_length(&self) -> (len: Option<u8>)
        ensures
            len is None <==> self.network() is None,
            len is Some ==> len->Some_0 as nat == self.network()->Some_0._prefix().length,
    {
        match self {
            AnyIpCidr::Any => None,
            AnyIpCidr::V4(c) => Some(c.network_length()),
            AnyIpCidr::V6(c) => Some(c.network_length()),
        }
    }

    /// IP family of the contained address (`Ipv4` or `Ipv6`).
    ///
    /// returns `None` for `Any`
    pub fn family(&self) -> (family: Option<Family>)
        ensures
            family is None <==> self.network() is None,
            family is Some ==> family->Some_0 == self.network()->Some_0._family(),
    {
        match self {
            AnyIpCidr::Any => None,
            AnyIpCidr::V4(_) => Some(Family::Ipv4),
            AnyIpCidr::V6(_) => Some(Family::Ipv6),
        }
    }

    /// whether network represents a single host address
    pub fn is_host_address(&self) -> (b: bool)
        ensures
            b == (self.network() is Some && self.network()->Some_0._prefix().length
                == self.network()->Some_0._family().width()),
    {
        match self {
            AnyIpCidr::Any => false,
            AnyIpCidr::V4(c) => c.is_host_address(),
            AnyIpCidr::V6(c) => c.is_host_address(),
        }
    }

    /// network mask: an pseudo address which has the first `network
    /// length` bits set to 1 and the remaining to 0.
    ///
    /// returns `None` for `Any`
    pub fn mask(&self) -> (mask: Option<IpAddr>)
        ensures
            mask is None <==> self.network() is None,
            mask is Some ==> {
                &&& mask->Some_0._family() == self.network()->Some_0._family()
                &&& mask->Some_0._value() == network_mask(
                    self.network()->Some_0._family().width(),
                    self.network()->Some_0._prefix().length,
                )
            },
    {
        match self {
            AnyIpCidr::Any => None,
            AnyIpCidr::V4(c) => Some(IpAddr::V4(c.mask())),
            AnyIpCidr::V6(c) => Some(IpAddr::V6(c.mask())),
        }
    }

    /// check whether an address is contained in the network: `Any`
    /// contains every address, and a network those of its family that
    /// share its prefix.
    pub fn contains(&self, addr: &IpAddr) -> (b: bool)
        ensures
            self.network() is None ==> b,
            self.network() is Some ==> b == (addr._family() == self.network()->Some_0._family()
                && prefix_match(
                self.network()->Some_0._prefix().address,
                addr._value(),
                self.network()->Some_0._family().width(),
                self.network()->Some_0._prefix().length,
            )),
    {
        match self {
            AnyIpCidr::Any => true,
            AnyIpCidr::V4(c) => match addr {
                IpAddr::V4(a) => c.contains(a),
                IpAddr::V6(_) => false,
            },
            AnyIpCidr::V6(c) => match addr {
                IpAddr::V4(_) => false,
                IpAddr::V6(a) => c.contains(a),
            },
        }
    }
}

impl vstd::std_specs::convert::FromSpecImpl<AnyIpCidr> for Option<IpCidr> {
    open spec fn obeys_from_spec() -> bool {
        true
    }

    open spec fn from_spec(value: AnyIpCidr) -> Self {
        value.network()
    }
}

impl From<AnyIpCidr> for Option<IpCidr> {
    fn from(value: AnyIpCidr) -> (r: Option<IpCidr>) {
        match value {
            AnyIpCidr::Any => None,
            AnyIpCidr::V4(c) => Some(IpCidr::V4(c)),
            AnyIpCidr::V6(c) => Some(IpCidr::V6(c)),
        }
    }
}

impl vstd::std_specs::convert::FromSpecImpl<Option<IpCidr>> for AnyIpCidr {
    open spec fn obeys_from_spec() -> bool {
        true
    }

    open spec fn from_spec(a: Option<IpCidr>) -> Self {
        match a {
            None => AnyIpCidr::Any,
            Some(IpCidr::V4(c)) => AnyIpCidr::V4(c),
            Some(IpCidr::V6(c)) => AnyIpCidr::V6(c),
        }
    }
}

impl From<Option<IpCidr>> for AnyIpCidr {
    fn from(a: Option<IpCidr>) -> (r: Self) {
        match a {
            None => AnyIpCidr::Any,
            Some(IpCidr::V4(c)) => AnyIpCidr::V4(c),
            Some(IpCidr::V6(c)) => AnyIpCidr::V6(c),
        }
    }
}

impl vstd::std_specs::convert::FromSpecImpl<IpCidr> for AnyIpCidr {
    open spec fn obeys_from_spec() -> bool {
        true
    }

    open spec fn from_spec(c: IpCidr) -> Self {
        match c {
            IpCidr::V4(c) => AnyIpCidr::V4(c),
            IpCidr::V6(c) => AnyIpCidr::V6(c),
        }
    }
}

impl From<IpCidr> for AnyIpCidr {
    fn from(c: IpCidr) -> (r: Self) {
        match c {
            IpCidr::V4(c) => AnyIpCidr::V4(c),
            IpCidr::V6(c) => AnyIpCidr::V6(c),
        }
    }
}

impl vstd::std_specs::convert::FromSpecImpl<Ipv4Cidr> for AnyIpCidr {
    open spec fn obeys_from_spec() -> bool {
        true
    }

    open spec fn from_spec(c: Ipv4Cidr) -> Self {
        AnyIpCidr::V4(c)
    }
}

impl From<Ipv4Cidr> for AnyIpCidr {
    fn from(c: Ipv4Cidr) -> (r: Self) {
        AnyIpCidr::V4(c)
    }
}

impl vstd::std_specs::convert::FromSpecImpl<Ipv6Cidr> for AnyIpCidr {
    open spec fn obeys_from_spec() -> bool {
        true
    }

    open spec fn from_spec(c: Ipv6Cidr) -> Self {
        AnyIpCidr::V6(c)
    }
}

impl From<Ipv6Cidr> for AnyIpCidr {
    fn from(c: Ipv6Cidr) -> (r: Self) {
        AnyIpCidr::V6(c)
    }
}

impl AnyIpCidr {
    /// The bits of the value: none for `Any`; else one bit for the family,
    /// clear for IPv4 and set for IPv6, and then the bits of the network.
    pub open spec fn bits(self) -> Seq<bool> {
        match self {
            AnyIpCidr::Any => Seq::empty(),
            AnyIpCidr::V4(c) => seq![false] + c.bits(),
            AnyIpCidr::V6(c) => seq![true] + c.bits(),
        }
    }

    /// The bits of the value with all the bits of its address, not only
    /// those of the network.
    pub open spec fn all_bits(self) -> Seq<bool> {
        match self {
            AnyIpCidr::Any => Seq::empty(),
            AnyIpCidr::V4(c) => seq![false] + ipv4_bits(c@.address),
            AnyIpCidr::V6(c) => seq![true] + ipv6_bits(c@.address),
        }
    }

    /// The network without bits of the family that the bit tells: IPv6
    /// where it is set, IPv4 where it is clear.
    pub open spec fn null_of(bit: bool) -> Self {
        if bit {
            AnyIpCidr::V6(Ipv6Cidr::null_spec())
        } else {
            AnyIpCidr::V4(Ipv4Cidr::null_spec())
        }
    }

    /// Whether this is the network without bits of the family that the bit
    /// tells: the family's network of the address 0 and the length 0.
    pub open spec fn is_null_of(self, bit: bool) -> bool {
        match self {
            AnyIpCidr::Any => false,
            AnyIpCidr::V4(c) => !bit && c@ == (Prefix { address: 0, length: 0 }),
            AnyIpCidr::V6(c) => bit && c@ == (Prefix { address: 0, length: 0 }),
        }
    }

    /// Bit `ndx`: the bit of the family, or a bit of the address.
    pub fn get(&self, ndx: usize) -> (bit: bool)
        requires
            ndx < self.all_bits().len(),
        ensures
            bit == self.all_bits()[ndx as int],
    {
        if 0 == ndx {
            self.is_ipv6()
        } else {
            match self {
                AnyIpCidr::Any => false,
                AnyIpCidr::V4(c) => c.get(ndx - 1),
                AnyIpCidr::V6(c) => c.get(ndx - 1),
            }
        }
    }

    /// Makes bit `ndx` be `bit`.  Setting the first bit always cuts the
    /// value down to the network without bits of the family that `bit`
    /// tells.
    pub fn set(&mut self, ndx: usize, bit: bool)
        requires
            ndx < old(self).bits().len(),
        ensures
            ndx == 0 ==> *final(self) == Self::null_of(bit),
            ndx == 0 ==> final(self).is_null_of(bit),
            ndx == 0 ==> final(self).bits() == seq![bit],
            ndx > 0 ==> final(self).bits() == old(self).bits().update(ndx as int, bit),
            ndx > 0 ==> match *old(self) {
                AnyIpCidr::Any => false,
                AnyIpCidr::V4(c) => {
                    &&& *final(self) is V4
                    &&& final(self)->V4_0@.length == c@.length
                    &&& ipv4_bits(final(self)->V4_0@.address) == ipv4_bits(c@.address).update(
                        ndx - 1,
                        bit,
                    )
                },
                AnyIpCidr::V6(c) => {
                    &&& *final(self) is V6
                    &&& final(self)->V6_0@.length == c@.length
                    &&& ipv6_bits(final(self)->V6_0@.address) == ipv6_bits(c@.address).update(
                        ndx - 1,
                        bit,
                    )
                },
            },
    {
        if 0 == ndx {
            if bit {
                *self = AnyIpCidr::V6(Ipv6Cidr::null());
            } else {
                *self = AnyIpCidr::V4(Ipv4Cidr::null());
            }
        } else {
            match self {
                AnyIpCidr::Any => {},
                AnyIpCidr::V4(c) => {
                    let ghost before = c.bits();
                    proof {
                        use_type_invariant(&*c);
                        c.lemma_bits_len();
                    }
                    c.set(ndx - 1, bit);
                    proof {
                        assert(seq![false] + c.bits() =~= (seq![false] + before).update(
                            ndx as int,
                            bit,
                        ));
                    }
                },
                AnyIpCidr::V6(c) => {
                    let ghost before = c.bits();
                    proof {
                        use_type_invariant(&*c);
                        c.lemma_bits_len();
                    }
                    c.set(ndx - 1, bit);
                    proof {
                        assert(seq![true] + c.bits() =~= (seq![true] + before).update(
                            ndx as int,
                            bit,
                        ));
                    }
                },
            }
        }
    }

    /// Turns bit `ndx` into the other bit.  Flipping the first bit cuts
    /// the value down to the network without bits of the other family.
    pub fn flip(&mut self, ndx: usize)
        requires
            ndx < old(self).bits().len(),
        ensures
            ndx == 0 ==> *final(self) == Self::null_of(!old(self).bits()[0]),
            ndx == 0 ==> final(self).is_null_of(!old(self).bits()[0]),
            ndx == 0 ==> final(self).bits() == seq![!old(self).bits()[0]],
            ndx > 0 ==> final(self).bits() == old(self).bits().update(
                ndx as int,
                !old(self).bits()[ndx as int],
            ),
            ndx > 0 ==> match *old(self) {
                AnyIpCidr::Any => false,
                AnyIpCidr::V4(c) => {
                    &&& *final(self) is V4
                    &&& final(self)->V4_0@.length == c@.length
                    &&& ipv4_bits(final(self)->V4_0@.address) == ipv4_bits(c@.address).update(
                        ndx - 1,
                        !ipv4_bits(c@.address)[ndx - 1],
                    )
                },
                AnyIpCidr::V6(c) => {
                    &&& *final(self) is V6
                    &&& final(self)->V6_0@.length == c@.length
                    &&& ipv6_bits(final(self)->V6_0@.address) == ipv6_bits(c@.address).update(
                        ndx - 1,
                        !ipv6_bits(c@.address)[ndx - 1],
                    )
                },
            },
    {
        if 0 == ndx {
            if self.is_ipv6() {
                *self = AnyIpCidr::V4(Ipv4Cidr::null())
            } else {
                *self = AnyIpCidr::V6(Ipv6Cidr::null())
            }
        } else {
            match self {
                AnyIpCidr::Any => {},
                AnyIpCidr::V4(c) => {
                    let ghost before = c.bits();
                    proof {
                        use_type_invariant(&*c);
                        c.lemma_bits_len();
                    }
                    c.flip(ndx - 1);
                    proof {
                        assert(seq![false] + c.bits() =~= (seq![false] + before).update(
                            ndx as int,
                            !before[ndx - 1],
                        ));
                    }
                },
                AnyIpCidr::V6(c) => {
                    let ghost before = c.bits();
                    proof {
                        use_type_invariant(&*c);
                        c.lemma_bits_len();
                    }
                    c.flip(ndx - 1);
                    proof {
                        assert(seq![true] + c.bits() =~= (seq![true] + before).update(
                            ndx as int,
                            !before[ndx - 1],
                        ));
                    }
                },
            }
        }
    }

    /// The number of bits.
    pub fn len(&self) -> (len: usize)
        ensures
            len == self.bits().len(),
    {
        proof {
            match self {
                AnyIpCidr::Any => {},
                AnyIpCidr::V4(c) => {
                    use_type_invariant(c);
                    c.lemma_bits_len();
                },
                AnyIpCidr::V6(c) => {
                    use_type_invariant(c);
                    c.lemma_bits_len();
                },
            }
        }
        match self {
            AnyIpCidr::Any => 0,
            AnyIpCidr::V4(c) => c.len() + 1,
            AnyIpCidr::V6(c) => c.len() + 1,
        }
    }

    /// Cuts the value down to its first `len` bits, if it has more: to
    /// `Any` where `len` is 0, else to the network of `len - 1` bits that
    /// holds it.  Nothing happens where `len` is over 128.
    pub fn clip(&mut self, len: usize)
        ensures
            len < old(self).bits().len() ==> final(self).bits() == old(self).bits().take(len as int),
            len >= old(self).bits().len() ==> *final(self) == *old(self),
            len == 0 ==> *final(self) == AnyIpCidr::Any,
            0 < len <= 128 ==> match *old(self) {
                AnyIpCidr::Any => *final(self) == AnyIpCidr::Any,
                AnyIpCidr::V4(c) => *final(self) is V4 && final(self)->V4_0@ == (Prefix {
                    address: network_address(c@.address, 32, (len - 1) as nat),
                    length: if len - 1 < c@.length {
                        (len - 1) as nat
                    } else {
                        c@.length
                    },
                }),
                AnyIpCidr::V6(c) => *final(self) is V6 && final(self)->V6_0@ == (Prefix {
                    address: network_address(c@.address, 128, (len - 1) as nat),
                    length: if len - 1 < c@.length {
                        (len - 1) as nat
                    } else {
                        c@.length
                    },
                }),
            },
    {
        // max length is 129 (len(IPv6) + 1)
        if len > 128 {
            proof {
                match self {
                    AnyIpCidr::Any => {},
                    AnyIpCidr::V4(c) => {
                        use_type_invariant(&*c);
                        c.lemma_bits_len();
                    },
                    AnyIpCidr::V6(c) => {
                        use_type_invariant(&*c);
                        c.lemma_bits_len();
                    },
                }
            }
            return ;
        }
        proof {
            match self {
                AnyIpCidr::Any => {},
                AnyIpCidr::V4(c) => {
                    use_type_invariant(&*c);
                    c.lemma_bits_len();
                },
                AnyIpCidr::V6(c) => {
                    use_type_invariant(&*c);
                    c.lemma_bits_len();
                },
            }
        }
        if 0 == len {
            proof {
                assert(self.bits().take(0) =~= Seq::<bool>::empty());
            }
            *self = AnyIpCidr::Any;
        } else {
            match self {
                AnyIpCidr::Any => (),
                AnyIpCidr::V4(c) => {
                    let ghost before = c.bits();
                    proof {
                        use_type_invariant(&*c);
                        c.lemma_bits_len();
                    }
                    c.clip(len - 1);
                    proof {
                        if len - 1 < before.len() {
                            assert(seq![false] + c.bits() =~= (seq![false] + before).take(
                                len as int,
                            ));
                        }
                    }
                },
                AnyIpCidr::V6(c) => {
                    let ghost before = c.bits();
                    proof {
                        use_type_invariant(&*c);
                        c.lemma_bits_len();
                    }
                    c.clip(len - 1);
                    proof {
                        if len - 1 < before.len() {
                            assert(seq![true] + c.bits() =~= (seq![true] + before).take(
                                len as int,
                            ));
                        }
                    }
                },
            }
        }
    }

    /// Adds a bit at the end: to `Any` the bit of the family, to a network
    /// a bit of the network.
    pub fn append(&mut self, bit: bool)
        requires
            old(self).bits().len() < old(self).all_bits().len() || *old(self) is Any,
        ensures
            final(self).bits() == old(self).bits().push(bit),
            match *old(self) {
                AnyIpCidr::Any => *final(self) == Self::null_of(bit) && final(self).is_null_of(bit),
                AnyIpCidr::V4(c) => {
                    &&& *final(self) is V4
                    &&& final(self)->V4_0@.length == c@.length + 1
                    &&& final(self)->V4_0.bits() == c.bits().push(bit)
                },
                AnyIpCidr::V6(c) => {
                    &&& *final(self) is V6
                    &&& final(self)->V6_0@.length == c@.length + 1
                    &&& final(self)->V6_0.bits() == c.bits().push(bit)
                },
            },
    {
        match self {
            AnyIpCidr::Any => {
                if bit {
                    *self = AnyIpCidr::V6(Ipv6Cidr::null());
                } else {
                    *self = AnyIpCidr::V4(Ipv4Cidr::null());
                }
                proof {
                    assert(self.bits() =~= Seq::<bool>::empty().push(bit));
                }
            },
            AnyIpCidr::V4(c) => {
                let ghost before = c.bits();
                proof {
                    use_type_invariant(&*c);
                    c.lemma_bits_len();
                }
                c.append(bit);
                proof {
                    assert(seq![false] + c.bits() =~= (seq![false] + before).push(bit));
                }
            },
            AnyIpCidr::V6(c) => {
                let ghost before = c.bits();
                proof {
                    use_type_invariant(&*c);
                    c.lemma_bits_len();
                }
                c.append(bit);
                proof {
                    assert(seq![true] + c.bits() =~= (seq![true] + before).push(bit));
                }
            },
        }
    }

    /// The value without bits: `Any`.
    pub fn null() -> (null: Self)
        ensures
            null == AnyIpCidr::Any,
    {
        AnyIpCidr::Any
    }

    /// The number of leading bits that the two values share.
    pub fn shared_prefix_len(&self, other: &Self) -> (len: usize)
        ensures
            len == common_prefix_len(self.bits(), other.bits()),
    {
        match (self, other) {
            (AnyIpCidr::V4(a), AnyIpCidr::V4(b)) => {
                proof {
                    assert((seq![false] + a.bits()).skip(1) =~= a.bits());
                    assert((seq![false] + b.bits()).skip(1) =~= b.bits());
                }
                1 + a.shared_prefix_len(b)
            },
            (AnyIpCidr::V6(a), AnyIpCidr::V6(b)) => {
                proof {
                    assert((seq![true] + a.bits()).skip(1) =~= a.bits());
                    assert((seq![true] + b.bits()).skip(1) =~= b.bits());
                }
                1 + a.shared_prefix_len(b)
            },
            _ => 0,
        }
    }
}

} // verus!
