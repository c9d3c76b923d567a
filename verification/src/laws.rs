//! What holds of the functions of this crate whatever their arguments
//! are, and relates several of them.

use vstd::prelude::*;
use vstd::arithmetic::power2::pow2;
use core::cmp::Ordering;
use crate::bit_math::lemma_pow2_widths;
use crate::bitstring::lexicographic_order;
use crate::cidr::{Ipv4Cidr, Ipv6Cidr};
use crate::errors::NetworkParseError;
use crate::inet_iterator::{prefixes_of, InetIterator};
use crate::internal_traits::{PrivCidr, PrivInet, PrivInetPair, PrivUnspecAddress};
use crate::num::NumberOfAddresses;
use crate::ordering::prefix_order;
use crate::prefix_math::{
    block_size,
    has_zero_host_part,
    host_mask,
    host_part,
    last_address,
    lemma_block_size,
    lemma_network_idempotent,
    lemma_parts,
    network_address,
    network_mask,
    span_hosts,
    step_backward,
    step_forward,
    Prefix,
    Span,
};
use crate::traits::{Address, Cidr, Inet, InetPair};

verus! {

/// A network that is made from an address with a zero host part and a
/// length that is not too long has that address as its first address and
/// that length as its network length.
pub proof fn lemma_cidr_new_round_trip<C: Cidr>(
    addr: C::Address,
    len: u8,
    made: Result<C, NetworkParseError>,
    first: C::Address,
    length: u8,
)
    requires
        len <= addr._family().width(),
        has_zero_host_part(addr._value(), addr._family().width(), len as nat),
        call_ensures(C::new, (addr, len), made),
        made is Ok ==> call_ensures(C::first_address, (&made->Ok_0,), first),
        made is Ok ==> call_ensures(C::network_length, (&made->Ok_0,), length),
    ensures
        made is Ok,
        first._family() == addr._family(),
        first._value() == addr._value(),
        length == len,
{
}

/// From an address with a host part that is not zero no network is made,
/// for that reason, but a host within a network is.
pub proof fn lemma_host_part_rejected<C: Cidr, I: Inet<Address = C::Address>>(
    addr: C::Address,
    len: u8,
    network: Result<C, NetworkParseError>,
    host: Result<I, crate::errors::NetworkLengthTooLongError>,
)
    requires
        !has_zero_host_part(addr._value(), addr._family().width(), len as nat),
        call_ensures(C::new, (addr, len), network),
        call_ensures(I::new, (addr, len), host),
    ensures
        network == Err::<C, _>(NetworkParseError::InvalidHostPart),
        host is Ok,
        host->Ok_0._prefix() == (Prefix { address: addr._value(), length: len as nat }),
{
    lemma_block_size(addr._family().width(), len as nat);
    if len >= addr._family().width() {
        assert(addr._value() % 1 == 0);
    }
}

/// The network mask and the host mask of a length are each the other with
/// all bits turned over: together they are all the bits of the width, and
/// they share none.  The last address of a network is the same from all
/// its addresses, so from its first one too.
pub proof fn lemma_mask_duality(x: nat, width: nat, len: nat)
    requires
        x < pow2(width),
    ensures
        network_mask(width, len) + host_mask(width, len) == pow2(width) - 1,
        network_mask(width, len) % block_size(width, len) == 0,
        host_mask(width, len) < block_size(width, len),
        last_address(network_address(x, width, len), width, len) == last_address(x, width, len),
{
    lemma_block_size(width, len);
    lemma_network_idempotent(x, width, len);
    let b = block_size(width, len) as int;
    if len <= width {
        let k = pow2(len) as int;
        vstd::arithmetic::power2::lemma_pow2_pos(len);
        assert((b * k - b) % b == 0) by (nonlinear_arith)
            requires
                b > 0,
                k > 0,
        ;
    } else {
        assert((pow2(width) - 1) % 1 == 0);
    }
}

/// In bits: the network mask of a `u32` is the host mask with all bits
/// turned over.
pub proof fn lemma_mask_duality_u32(len: u8, host: u32, network: u32)
    requires
        host as nat == host_mask(32, len as nat),
        network as nat == network_mask(32, len as nat),
    ensures
        network == !host,
{
    lemma_pow2_widths();
    lemma_block_size(32, len as nat);
    crate::bit_math::lemma_u32_low_mask_ops(0, 0, host, crate::prefix_math::host_bits(32, len as nat));
}

/// In bits: the network mask of a `u128` is the host mask with all bits
/// turned over.
pub proof fn lemma_mask_duality_u128(len: u8, host: u128, network: u128)
    requires
        host as nat == host_mask(128, len as nat),
        network as nat == network_mask(128, len as nat),
    ensures
        network == !host,
{
    lemma_pow2_widths();
    lemma_block_size(128, len as nat);
    crate::bit_math::lemma_u128_low_mask_ops(
        0,
        0,
        host,
        crate::prefix_math::host_bits(128, len as nat),
    );
}

/// A step of one from the last address of a network leaves the network:
/// it is reported, and the address that comes out is the first address of
/// the same network.  A step of one back from the first address is
/// reported too, and gives the last address.
pub proof fn lemma_step_at_the_ends(addr: nat, width: nat, len: nat)
    requires
        addr < pow2(width),
    ensures
        step_forward(last_address(addr, width, len), width, len, 1) == (
            network_address(addr, width, len),
            true,
        ),
        step_backward(network_address(addr, width, len), width, len, 1) == (
            last_address(addr, width, len),
            true,
        ),
        addr != last_address(addr, width, len) ==> step_forward(addr, width, len, 1) == (
            addr + 1,
            false,
        ),
        addr != network_address(addr, width, len) ==> step_backward(addr, width, len, 1) == (
            (addr - 1) as nat,
            false,
        ),
{
    lemma_block_size(width, len);
    lemma_parts(addr, width, len);
    lemma_network_idempotent(addr, width, len);
    let b = block_size(width, len) as int;
    let n = network_address(addr, width, len);
    let h = host_part(addr, width, len) as int;
    vstd::arithmetic::div_mod::lemma_mod_self_0(b);
    vstd::arithmetic::div_mod::lemma_small_mod((b - 1) as nat, b as nat);
    vstd::arithmetic::div_mod::lemma_mod_add_multiples_vanish(-1, b);
    assert((0 - 1) % b == b - 1);
    if h + 1 < b {
        vstd::arithmetic::div_mod::lemma_small_mod((h + 1) as nat, b as nat);
    }
    if h >= 1 {
        vstd::arithmetic::div_mod::lemma_small_mod((h - 1) as nat, b as nat);
    }
}

/// The host at the last address of its network has no next host, and the
/// one at the first address has none before it; every other host has a
/// next one and one before it, one address away.
pub proof fn lemma_inet_next_at_the_end<I: Inet>(inet: I, next: Option<I>, previous: Option<I>)
    requires
        inet._prefix().address < pow2(inet._family().width()),
        call_ensures(I::next, (inet,), next),
        call_ensures(I::previous, (inet,), previous),
    ensures
        next is None <==> inet._prefix().address == last_address(
            inet._prefix().address,
            inet._family().width(),
            inet._prefix().length,
        ),
        next is Some ==> next->Some_0._prefix() == (Prefix {
            address: inet._prefix().address + 1,
            length: inet._prefix().length,
        }),
        previous is None <==> inet._prefix().address == network_address(
            inet._prefix().address,
            inet._family().width(),
            inet._prefix().length,
        ),
        previous is Some ==> previous->Some_0._prefix() == (Prefix {
            address: (inet._prefix().address - 1) as nat,
            length: inet._prefix().length,
        }),
{
    let a = inet._prefix().address;
    let w = inet._family().width();
    let l = inet._prefix().length;
    lemma_step_at_the_ends(a, w, l);
    lemma_network_idempotent(a, w, l);
    lemma_parts(a, w, l);
    if a == last_address(a, w, l) {
        assert(step_forward(a, w, l, 1) == step_forward(last_address(a, w, l), w, l, 1));
    }
    if a == network_address(a, w, l) {
        assert(step_backward(a, w, l, 1) == step_backward(network_address(a, w, l), w, l, 1));
    }
}

/// Of two prefixes exactly one of three things holds: the first comes
/// before the second, they are the same, or the first comes after the
/// second; and the first comes before the second exactly when the second
/// comes after the first.
pub proof fn lemma_order_total(a: Prefix, b: Prefix)
    ensures
        prefix_order(a, b) == Ordering::Equal <==> a == b,
        prefix_order(a, b) == Ordering::Less <==> prefix_order(b, a) == Ordering::Greater,
        prefix_order(a, b) == Ordering::Greater <==> prefix_order(b, a) == Ordering::Less,
{
}

/// The order is transitive.
pub proof fn lemma_order_transitive(a: Prefix, b: Prefix, c: Prefix)
    requires
        prefix_order(a, b) == Ordering::Less,
        prefix_order(b, c) == Ordering::Less,
    ensures
        prefix_order(a, c) == Ordering::Less,
{
}

/// A network with a shorter prefix of the same address comes first.
pub proof fn lemma_order_shorter_first(a: Prefix, b: Prefix)
    requires
        a.address == b.address,
        a.length < b.length,
    ensures
        prefix_order(a, b) == Ordering::Less,
{
}

/// The count of the addresses of a pair is the number for which a `u128`
/// is too small exactly when the pair spans all IPv6 addresses.
pub proof fn lemma_pair_of_all_addresses<P: InetPair>(pair: P, count: NumberOfAddresses)
    requires
        call_ensures(P::_covered_addresses, (&pair,), count),
        pair._span().second < pow2(128),
    ensures
        count is MaxIpv6Addresses <==> pair._span().first == 0 && pair._span().second == pow2(128)
            - 1,
        count is Count ==> count->Count_0 == pair._span().second - pair._span().first + 1,
{
    lemma_pow2_widths();
}

/// The hosts that an iterator gives from the back are, read in the
/// opposite order, the hosts that it gives from the front.
pub proof fn lemma_backward_reversed_is_forward<A: Address>(
    it: InetIterator<A>,
    forward: Vec<A::Inet>,
    backward: Vec<A::Inet>,
)
    requires
        call_ensures(InetIterator::<A>::to_vec, (it,), forward),
        call_ensures(InetIterator::<A>::to_vec_reversed, (it,), backward),
    ensures
        prefixes_of(backward@).reverse() == prefixes_of(forward@),
        backward@.len() == forward@.len(),
        forall|i: int|
            0 <= i < forward@.len() ==> (#[trigger] forward@[i])._prefix() == backward@[forward@.len()
                - 1 - i]._prefix() && forward@[i]._family() == backward@[forward@.len() - 1
                - i]._family(),
{
    assert(it.remaining().reverse().reverse() =~= it.remaining());
    assert(prefixes_of(backward@).len() == backward@.len());
    assert(prefixes_of(forward@).len() == forward@.len());
    assert forall|i: int| 0 <= i < forward@.len() implies (#[trigger] forward@[i])._prefix()
        == backward@[forward@.len() - 1 - i]._prefix() by {
        assert(prefixes_of(forward@)[i] == forward@[i]._prefix());
        assert(prefixes_of(backward@)[forward@.len() - 1 - i] == backward@[forward@.len() - 1
            - i]._prefix());
        assert(prefixes_of(backward@).reverse()[i] == prefixes_of(backward@)[forward@.len() - 1
            - i]);
    }
}

/// A network gives as many hosts as it has addresses, the first of them
/// being its first address, and an iterator from which all hosts were
/// taken gives none.
pub proof fn lemma_network_hosts<C: Cidr>(network: C, width: nat)
    requires
        width == network._family().width(),
        network._prefix().address < pow2(width),
        has_zero_host_part(network._prefix().address, width, network._prefix().length),
    ensures
        span_hosts(
            Span {
                first: network._prefix().address,
                second: last_address(network._prefix().address, width, network._prefix().length),
                length: network._prefix().length,
            },
        ).len() == block_size(width, network._prefix().length),
        network._prefix().length + 4 == width ==> block_size(width, network._prefix().length)
            == 16,
{
    lemma_block_size(width, network._prefix().length);
    lemma_parts(network._prefix().address, width, network._prefix().length);
    vstd::arithmetic::power2::lemma2_to64();
}

/// The order of IPv4 networks is the order of their bit strings in which a
/// bit string comes before those that it is a beginning of, and a clear
/// bit before a set one.
pub proof fn lemma_order_is_lexicographic_v4(a: Ipv4Cidr, b: Ipv4Cidr)
    requires
        a.wf(),
        b.wf(),
    ensures
        prefix_order(a@, b@) == lexicographic_order(a.bits(), b.bits()),
{
    a.lemma_bits_len();
    b.lemma_bits_len();
    a.lemma_bits_compare(b);
}

/// The order of IPv6 networks is the order of their bit strings in which a
/// bit string comes before those that it is a beginning of, and a clear
/// bit before a set one.
pub proof fn lemma_order_is_lexicographic_v6(a: Ipv6Cidr, b: Ipv6Cidr)
    requires
        a.wf(),
        b.wf(),
    ensures
        prefix_order(a@, b@) == lexicographic_order(a.bits(), b.bits()),
{
    a.lemma_bits_len();
    b.lemma_bits_len();
    a.lemma_bits_compare(b);
}

} // verus!
