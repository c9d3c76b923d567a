//! IPv4 networks as bit strings: the bits of a network are the first
//! bits of its address, as many as its network length says.

use vstd::prelude::*;
use crate::bigendian_ops::{
    element_get_u32,
    element_shared_prefix_len_u32,
    make_element_flip_u32,
    make_element_set_false_from_u32,
    make_element_set_u32,
};
use crate::bit_math::{lemma_pow2_widths, lemma_u32_host_part_bits, lemma_u32_low_mask_ops};
use crate::bit_seq::{
    bits_u32,
    lemma_u32_single,
    lemma_u32_suffix,
    suffix_u32,
};
use crate::bitstring::{common_prefix_len, lemma_common_prefix_len_is};
use crate::address::Ipv4Addr;
use crate::cidr::Ipv4Cidr;
use crate::internal_traits::Ipv4AddrTools;
use crate::prefix_math::{host_bits, network_address, Prefix};

verus! {

/// The bits of an IPv4 address, the most significant one first.
pub open spec fn ipv4_bits(address: nat) -> Seq<bool> {
    bits_u32(address as u32)
}

impl Ipv4Cidr {
    /// The bits of the network: the first bits of its address, as many as
    /// its network length says.
    pub open spec fn bits(self) -> Seq<bool> {
        ipv4_bits(self@.address).take(self@.length as int)
    }

    /// A network has as many bits as its network length says, and its
    /// address has 32.
    pub proof fn lemma_bits_len(self)
        requires
            self.wf(),
        ensures
            self.bits().len() == self@.length,
            ipv4_bits(self@.address).len() == 32,
    {
    }

    /// How the bit strings of two networks lie to each other, by their
    /// addresses: those of one address share the bits of the shorter one;
    /// else they share the bits before the first bit in which the
    /// addresses differ, which is set in the greater address, or all the
    /// bits of the network with the smaller address where that is the
    /// shorter one and its bits end before that bit.
    pub proof fn lemma_bits_compare(self, other: Self)
        requires
            self.wf(),
            other.wf(),
        ensures
            0 <= common_prefix_len(self.bits(), other.bits()) <= self@.length,
            common_prefix_len(self.bits(), other.bits()) <= other@.length,
            self@.address == other@.address ==> common_prefix_len(self.bits(), other.bits())
                == self@.length || common_prefix_len(self.bits(), other.bits()) == other@.length,
            self@.address < other@.address ==> (common_prefix_len(self.bits(), other.bits())
                == self@.length && self@.length < other@.length) || (common_prefix_len(
                self.bits(),
                other.bits(),
            ) < self@.length && common_prefix_len(self.bits(), other.bits()) < other@.length
                && !self.bits()[common_prefix_len(self.bits(), other.bits())]),
            self@.address > other@.address ==> (common_prefix_len(self.bits(), other.bits())
                == other@.length && other@.length < self@.length) || (common_prefix_len(
                self.bits(),
                other.bits(),
            ) < self@.length && common_prefix_len(self.bits(), other.bits()) < other@.length
                && self.bits()[common_prefix_len(self.bits(), other.bits())]),
    {
        let x = self@.address as u32;
        let y = other@.address as u32;
        let la = self@.length as int;
        let lb = other@.length as int;
        let s = self.bits();
        let t = other.bits();
        lemma_pow2_widths();
        lemma_u32_host_part_bits(x, self@.length);
        lemma_u32_host_part_bits(y, other@.length);
        crate::bitstring::lemma_common_prefix_len(bits_u32(x), bits_u32(y));
        crate::bitstring::lemma_common_prefix_len(s, t);
        let i = common_prefix_len(bits_u32(x), bits_u32(y));
        if x == y {
            let n = if la < lb {
                la
            } else {
                lb
            };
            lemma_common_prefix_len_is(s, t, n);
        } else {
            crate::bit_seq::lemma_u32_bits_injective(x, y);
            if i == 32 {
                assert(bits_u32(x) =~= bits_u32(y));
            }
            crate::bit_seq::lemma_u32_compare(x, y, i);
            if i < la && i < lb {
                lemma_common_prefix_len_is(s, t, i);
            } else if x < y {
                // the bit is set in the other address, beyond the end of this network
                lemma_common_prefix_len_is(s, t, la);
            } else {
                lemma_common_prefix_len_is(s, t, lb);
            }
        }
    }

    /// Bit `ndx` of the address of the network.
    pub fn get(&self, ndx: usize) -> (bit: bool)
        requires
            ndx < 32,
        ensures
            bit == ipv4_bits(self@.address)[ndx as int],
    {
        element_get_u32(Ipv4AddrTools::to_native(self.address), ndx)
    }

    /// Makes bit `ndx` of the network be `bit`.
    pub fn set(&mut self, ndx: usize, bit: bool)
        requires
            ndx < old(self)@.length,
        ensures
            final(self)@.length == old(self)@.length,
            final(self).bits() == old(self).bits().update(ndx as int, bit),
            ipv4_bits(final(self)@.address) == ipv4_bits(old(self)@.address).update(
                ndx as int,
                bit,
            ),
    {
        proof {
            use_type_invariant(&*self);
        }
        let old_bits = Ipv4AddrTools::to_native(self.address);
        let new_bits = make_element_set_u32(old_bits, ndx, bit);
        proof {
            lemma_u32_single(old_bits, ndx as int);
            lemma_u32_host_part_bits(old_bits, self.network_length as nat);
            lemma_u32_host_part_bits(new_bits, self.network_length as nat);
            assert(bits_u32(new_bits).take(self.network_length as int) =~= bits_u32(old_bits).take(
                self.network_length as int,
            ).update(ndx as int, bit));
        }
        *self =
        Ipv4Cidr {
            address: Ipv4AddrTools::from_native(new_bits),
            network_length: self.network_length,
        };
    }

    /// Turns bit `ndx` of the network into the other bit.
    pub fn flip(&mut self, ndx: usize)
        requires
            ndx < old(self)@.length,
        ensures
            final(self)@.length == old(self)@.length,
            final(self).bits() == old(self).bits().update(ndx as int, !old(self).bits()[ndx as int]),
            ipv4_bits(final(self)@.address) == ipv4_bits(old(self)@.address).update(
                ndx as int,
                !ipv4_bits(old(self)@.address)[ndx as int],
            ),
    {
        proof {
            use_type_invariant(&*self);
        }
        let old_bits = Ipv4AddrTools::to_native(self.address);
        let new_bits = make_element_flip_u32(old_bits, ndx);
        proof {
            lemma_u32_single(old_bits, ndx as int);
            lemma_u32_host_part_bits(old_bits, self.network_length as nat);
            lemma_u32_host_part_bits(new_bits, self.network_length as nat);
            assert(bits_u32(new_bits).take(self.network_length as int) =~= bits_u32(old_bits).take(
                self.network_length as int,
            ).update(ndx as int, !bits_u32(old_bits)[ndx as int]));
        }
        *self =
        Ipv4Cidr {
            address: Ipv4AddrTools::from_native(new_bits),
            network_length: self.network_length,
        };
    }

    /// The number of bits of the network: its network length.
    pub fn len(&self) -> (len: usize)
        ensures
            len == self@.length,
            len == self.bits().len(),
    {
        proof {
            use_type_invariant(self);
        }
        self.network_length as usize
    }

    /// Cuts the network down to its first `len` bits, if it has more: the
    /// address is that of the network of length `len`.  Nothing happens
    /// where `len` is over 255.
    pub fn clip(&mut self, len: usize)
        ensures
            len > 255 ==> *final(self) == *old(self),
            len <= 255 ==> final(self)@ == (Prefix {
                address: network_address(old(self)@.address, 32, len as nat),
                length: if len < old(self)@.length {
                    len as nat
                } else {
                    old(self)@.length
                },
            }),
            len < old(self)@.length ==> final(self).bits() == old(self).bits().take(len as int),
            len >= old(self)@.length ==> *final(self) == *old(self),
    {
        if len > 255 {
            return ;
        }
        proof {
            use_type_invariant(&*self);
        }
        let old_bits = Ipv4AddrTools::to_native(self.address);
        let new_bits = make_element_set_false_from_u32(old_bits, len);
        let new_len = if (len as u8) < self.network_length {
            len as u8
        } else {
            self.network_length
        };
        proof {
            lemma_pow2_widths();
            lemma_u32_suffix(old_bits, len as int);
            lemma_u32_host_part_bits(old_bits, self.network_length as nat);
            lemma_u32_host_part_bits(old_bits, len as nat);
            lemma_u32_host_part_bits(new_bits, new_len as nat);
            crate::bit_math::lemma_u32_suffix_is_mask(len as int);
            lemma_u32_low_mask_ops(old_bits, 0, suffix_u32(len as int), host_bits(32, len as nat));
            if len < self.network_length {
                assert(bits_u32(new_bits).take(len as int) =~= bits_u32(old_bits).take(
                    self.network_length as int,
                ).take(len as int));
            } else {
                crate::bit_seq::lemma_u32_bits_injective(new_bits, old_bits);
                assert(bits_u32(new_bits) =~= bits_u32(old_bits));
            }
        }
        *self = Ipv4Cidr { address: Ipv4AddrTools::from_native(new_bits), network_length: new_len };
    }

    /// Adds a bit at the end of the network.
    pub fn append(&mut self, bit: bool)
        requires
            old(self)@.length < 32,
        ensures
            final(self)@.length == old(self)@.length + 1,
            final(self).bits() == old(self).bits().push(bit),
            ipv4_bits(final(self)@.address) == ipv4_bits(old(self)@.address).update(
                old(self)@.length as int,
                bit,
            ),
    {
        proof {
            use_type_invariant(&*self);
        }
        let old_bits = Ipv4AddrTools::to_native(self.address);
        let new_bits = make_element_set_u32(old_bits, self.network_length as usize, bit);
        proof {
            lemma_u32_single(old_bits, self.network_length as int);
            lemma_u32_host_part_bits(old_bits, self.network_length as nat);
            lemma_u32_host_part_bits(new_bits, (self.network_length + 1) as nat);
            assert(bits_u32(new_bits).take(self.network_length + 1) =~= bits_u32(old_bits).take(
                self.network_length as int,
            ).push(bit));
        }
        *self =
        Ipv4Cidr {
            address: Ipv4AddrTools::from_native(new_bits),
            network_length: self.network_length + 1,
        };
    }

    /// The network without bits: all addresses.
    pub closed spec fn null_spec() -> Self {
        Ipv4Cidr { address: Ipv4Addr { bits: 0 }, network_length: 0 }
    }

    /// The network without bits has the address 0 and the length 0.
    pub proof fn lemma_null_spec()
        ensures
            Self::null_spec()@ == (Prefix { address: 0, length: 0 }),
            Self::null_spec().bits() == Seq::<bool>::empty(),
    {
        assert(ipv4_bits(0).take(0) =~= Seq::<bool>::empty());
    }

    /// The network without bits: all addresses.
    pub fn null() -> (null: Self)
        ensures
            null == Self::null_spec(),
            null@ == (Prefix { address: 0, length: 0 }),
            null.bits() == Seq::<bool>::empty(),
    {
        proof {
            lemma_pow2_widths();
            assert(ipv4_bits(0).take(0) =~= Seq::<bool>::empty());
        }
        Ipv4Cidr { address: Ipv4AddrTools::from_native(0), network_length: 0 }
    }

    /// The number of leading bits that the two networks share.
    pub fn shared_prefix_len(&self, other: &Self) -> (len: usize)
        ensures
            len == common_prefix_len(self.bits(), other.bits()),
            len <= self@.length,
            len <= other@.length,
            len <= 32,
    {
        proof {
            use_type_invariant(self);
            use_type_invariant(other);
        }
        let max_len = if self.network_length < other.network_length {
            self.network_length
        } else {
            other.network_length
        } as usize;
        let len = element_shared_prefix_len_u32(
            Ipv4AddrTools::to_native(self.address),
            Ipv4AddrTools::to_native(other.address),
            max_len,
        );
        proof {
            lemma_common_prefix_len_is(self.bits(), other.bits(), len as int);
        }
        len
    }
}

} // verus!
