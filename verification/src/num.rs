//! Counts of addresses.

use vstd::prelude::*;

verus! {

/// Number of addresses (in a prefix / range).
///
/// Can be 2^128, so a u128 isn't enough - we need one more.
#[derive(Clone, Copy, PartialEq, Eq, Structural, PartialOrd, Ord, Hash, Debug)]
pub enum NumberOfAddresses {
    /// Given amount
    Count(u128),
    /// 2^128 = 340282366920938463463374607431768211456
    MaxIpv6Addresses,
}

impl View for NumberOfAddresses {
    type V = nat;

    /// The number that is meant.
    open spec fn view(&self) -> nat {
        match self {
            NumberOfAddresses::Count(c) => *c as nat,
            NumberOfAddresses::MaxIpv6Addresses => u128::MAX as nat + 1,
        }
    }
}

impl NumberOfAddresses {
    /// The number of addresses from one address to another that lies `d`
    /// after it, both counted.
    pub fn count_from_distance(d: u128) -> (n: Self)
        ensures
            n@ == d + 1,
            n is MaxIpv6Addresses <==> d == u128::MAX,
    {
        match d.checked_add(1) {
            Some(c) => NumberOfAddresses::Count(c),
            None => NumberOfAddresses::MaxIpv6Addresses,
        }
    }
}

} // verus!
