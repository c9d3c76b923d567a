//! `+` and `-` on hosts within networks of either family.

use vstd::prelude::*;
use vstd::std_specs::ops::{AddSpec, AddSpecImpl, SubSpec, SubSpecImpl};
use crate::inet::IpInet;

verus! {

impl AddSpecImpl<u128> for IpInet {
    open spec fn obeys_add_spec() -> bool {
        true
    }

    /// The step must stay within the network.
    open spec fn add_req(self, step: u128) -> bool {
        match self {
            IpInet::V4(c) => AddSpec::add_req(c, step),
            IpInet::V6(c) => AddSpec::add_req(c, step),
        }
    }

    open spec fn add_spec(self, step: u128) -> IpInet {
        match self {
            IpInet::V4(c) => IpInet::V4(AddSpec::add_spec(c, step)),
            IpInet::V6(c) => IpInet::V6(AddSpec::add_spec(c, step)),
        }
    }
}

impl core::ops::Add<u128> for IpInet {
    type Output = IpInet;

    fn add(self, step: u128) -> (result: IpInet) {
        match self {
            IpInet::V4(c) => IpInet::V4(c + step),
            IpInet::V6(c) => IpInet::V6(c + step),
        }
    }
}

impl SubSpecImpl<u128> for IpInet {
    open spec fn obeys_sub_spec() -> bool {
        true
    }

    /// The step must stay within the network.
    open spec fn sub_req(self, step: u128) -> bool {
        match self {
            IpInet::V4(c) => SubSpec::sub_req(c, step),
            IpInet::V6(c) => SubSpec::sub_req(c, step),
        }
    }

    open spec fn sub_spec(self, step: u128) -> IpInet {
        match self {
            IpInet::V4(c) => IpInet::V4(SubSpec::sub_spec(c, step)),
            IpInet::V6(c) => IpInet::V6(SubSpec::sub_spec(c, step)),
        }
    }
}

impl core::ops::Sub<u128> for IpInet {
    type Output = IpInet;

    fn sub(self, step: u128) -> (result: IpInet) {
        match self {
            IpInet::V4(c) => IpInet::V4(c - step),
            IpInet::V6(c) => IpInet::V6(c - step),
        }
    }
}

} // verus!
