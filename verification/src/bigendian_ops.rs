//! The bit operations of the `bitstring` crate on the numbers that
//! addresses are.  What is said of them here is taken from that crate and
//! not proved.

use vstd::prelude::*;
use crate::bit_seq::{bit_u128, bit_u32, single_u128, single_u32, suffix_u128, suffix_u32};

verus! {

/// Calls `bitstring::utils::bigendian::u32::element_get`, which tells
/// whether bit `ndx` of the number is set, bit 0 being the most
/// significant one.  It panics where `ndx` is 32 or more.
#[verifier::external_body]
pub(crate) fn element_get_u32(value: u32, ndx: usize) -> (bit: bool)
    requires
        ndx < 32,
    ensures
        bit == bit_u32(value, ndx as int),
{
    bitstring::utils::bigendian::u32::element_get(value, ndx)
}

/// Calls `bitstring::utils::bigendian::u32::make_element_set`, which
/// gives the number with bit `ndx` set or cleared as `bit` says.  It
/// panics where `ndx` is 32 or more.
#[verifier::external_body]
pub(crate) fn make_element_set_u32(value: u32, ndx: usize, bit: bool) -> (r: u32)
    requires
        ndx < 32,
    ensures
        bit ==> r == value | single_u32(ndx as int),
        !bit ==> r == value & !single_u32(ndx as int),
{
    bitstring::utils::bigendian::u32::make_element_set(value, ndx, bit)
}

/// Calls `bitstring::utils::bigendian::u32::make_element_flip`, which
/// gives the number with bit `ndx` turned into the other bit.  It panics
/// where `ndx` is 32 or more.
#[verifier::external_body]
pub(crate) fn make_element_flip_u32(value: u32, ndx: usize) -> (r: u32)
    requires
        ndx < 32,
    ensures
        r == value ^ single_u32(ndx as int),
{
    bitstring::utils::bigendian::u32::make_element_flip(value, ndx)
}

/// Calls `bitstring::utils::bigendian::u32::make_element_set_false_from`,
/// which gives the number with the bits from `ndx` on cleared, and the
/// number itself where `ndx` is 32 or more.
#[verifier::external_body]
pub(crate) fn make_element_set_false_from_u32(value: u32, ndx: usize) -> (r: u32)
    ensures
        r == value & !suffix_u32(ndx as int),
{
    bitstring::utils::bigendian::u32::make_element_set_false_from(value, ndx)
}

/// Calls `bitstring::utils::bigendian::u32::element_shared_prefix_len`,
/// which gives the number of leading bits that the two numbers share, but
/// no more than `max_len`.  It panics where `max_len` is over 32.
#[verifier::external_body]
pub(crate) fn element_shared_prefix_len_u32(value: u32, other: u32, max_len: usize) -> (len:
    usize)
    requires
        max_len <= 32,
    ensures
        len <= max_len,
        forall|j: int| 0 <= j < len ==> bit_u32(value, j) == bit_u32(other, j),
        len < max_len ==> bit_u32(value, len as int) != bit_u32(other, len as int),
{
    bitstring::utils::bigendian::u32::element_shared_prefix_len(value, other, max_len)
}

/// Calls `bitstring::utils::bigendian::u128::element_get`, which tells
/// whether bit `ndx` of the number is set, bit 0 being the most
/// significant one.  It panics where `ndx` is 128 or more.
#[verifier::external_body]
pub(crate) fn element_get_u128(value: u128, ndx: usize) -> (bit: bool)
    requires
        ndx < 128,
    ensures
        bit == bit_u128(value, ndx as int),
{
    bitstring::utils::bigendian::u128::element_get(value, ndx)
}

/// Calls `bitstring::utils::bigendian::u128::make_element_set`, which
/// gives the number with bit `ndx` set or cleared as `bit` says.  It
/// panics where `ndx` is 128 or more.
#[verifier::external_body]
pub(crate) fn make_element_set_u128(value: u128, ndx: usize, bit: bool) -> (r: u128)
    requires
        ndx < 128,
    ensures
        bit ==> r == value | single_u128(ndx as int),
        !bit ==> r == value & !single_u128(ndx as int),
{
    bitstring::utils::bigendian::u128::make_element_set(value, ndx, bit)
}

/// Calls `bitstring::utils::bigendian::u128::make_element_flip`, which
/// gives the number with bit `ndx` turned into the other bit.  It panics
/// where `ndx` is 128 or more.
#[verifier::external_body]
pub(crate) fn make_element_flip_u128(value: u128, ndx: usize) -> (r: u128)
    requires
        ndx < 128,
    ensures
        r == value ^ single_u128(ndx as int),
{
    bitstring::utils::bigendian::u128::make_element_flip(value, ndx)
}

/// Calls `bitstring::utils::bigendian::u128::make_element_set_false_from`,
/// which gives the number with the bits from `ndx` on cleared, and the
/// number itself where `ndx` is 128 or more.
#[verifier::external_body]
pub(crate) fn make_element_set_false_from_u128(value: u128, ndx: usize) -> (r: u128)
    ensures
        r == value & !suffix_u128(ndx as int),
{
    bitstring::utils::bigendian::u128::make_element_set_false_from(value, ndx)
}

/// Calls `bitstring::utils::bigendian::u128::element_shared_prefix_len`,
/// which gives the number of leading bits that the two numbers share, but
/// no more than `max_len`.  It panics where `max_len` is over 128.
#[verifier::external_body]
pub(crate) fn element_shared_prefix_len_u128(value: u128, other: u128, max_len: usize) -> (len:
    usize)
    requires
        max_len <= 128,
    ensures
        len <= max_len,
        forall|j: int| 0 <= j < len ==> bit_u128(value, j) == bit_u128(other, j),
        len < max_len ==> bit_u128(value, len as int) != bit_u128(other, len as int),
{
    bitstring::utils::bigendian::u128::element_shared_prefix_len(value, other, max_len)
}

} // verus!
