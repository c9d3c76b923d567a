//! `+` and `-` on hosts within IPv6 networks: the host so many addresses
//! later or earlier in the same network.  They are for steps that stay
//! within the network; for others there are `overflowing_add` and
//! `overflowing_sub`.

use vstd::prelude::*;
use vstd::std_specs::ops::{AddSpecImpl, SubSpecImpl};
use crate::address::Ipv6Addr;
use crate::inet::Ipv6Inet;
use crate::prefix_math::{step_backward, step_forward};

verus! {

impl AddSpecImpl<u128> for Ipv6Inet {
    open spec fn obeys_add_spec() -> bool {
        true
    }

    /// The step must stay within the network.
    open spec fn add_req(self, step: u128) -> bool {
        !step_forward(self@.address, 128, self@.length, step as nat).1
    }

    open(crate) spec fn add_spec(self, step: u128) -> Ipv6Inet {
        Ipv6Inet {
            address: Ipv6Addr {
                bits: step_forward(self@.address, 128, self@.length, step as nat).0 as u128,
            },
            network_length: self.network_length,
        }
    }
}

impl core::ops::Add<u128> for Ipv6Inet {
    type Output = Ipv6Inet;

    fn add(self, step: u128) -> (result: Ipv6Inet) {
        let (result, overflow) = self.overflowing_add(step);
        proof {
            use_type_invariant(&result);
        }
        result
    }
}

impl SubSpecImpl<u128> for Ipv6Inet {
    open spec fn obeys_sub_spec() -> bool {
        true
    }

    /// The step must stay within the network.
    open spec fn sub_req(self, step: u128) -> bool {
        !step_backward(self@.address, 128, self@.length, step as nat).1
    }

    open(crate) spec fn sub_spec(self, step: u128) -> Ipv6Inet {
        Ipv6Inet {
            address: Ipv6Addr {
                bits: step_backward(self@.address, 128, self@.length, step as nat).0 as u128,
            },
            network_length: self.network_length,
        }
    }
}

impl core::ops::Sub<u128> for Ipv6Inet {
    type Output = Ipv6Inet;

    fn sub(self, step: u128) -> (result: Ipv6Inet) {
        let (result, overflow) = self.overflowing_sub(step);
        proof {
            use_type_invariant(&result);
        }
        result
    }
}

} // verus!
