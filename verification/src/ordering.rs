//! The order of networks and of hosts: by address first, then by network
//! length, both ascending.

use vstd::prelude::*;
use core::cmp::Ordering;
use vstd::std_specs::cmp::PartialOrdSpecImpl;
use crate::cidr::{AnyIpCidr, IpCidr, Ipv4Cidr, Ipv6Cidr};
use crate::inet::{IpInet, Ipv4Inet, Ipv6Inet};
use crate::prefix_math::Prefix;

verus! {

/// How two prefixes compare: by address, and by length where the addresses
/// are the same.
pub open spec fn prefix_order(a: Prefix, b: Prefix) -> Ordering {
    if a.address < b.address {
        Ordering::Less
    } else if a.address > b.address {
        Ordering::Greater
    } else if a.length < b.length {
        Ordering::Less
    } else if a.length > b.length {
        Ordering::Greater
    } else {
        Ordering::Equal
    }
}

impl PartialOrd for Ipv4Inet {
    fn partial_cmp(&self, other: &Self) -> (r: Option<Ordering>) {
        let a = self.address.to_bits();
        let b = other.address.to_bits();
        if a < b {
            Some(Ordering::Less)
        } else if a > b {
            Some(Ordering::Greater)
        } else if self.network_length < other.network_length {
            Some(Ordering::Less)
        } else if self.network_length > other.network_length {
            Some(Ordering::Greater)
        } else {
            Some(Ordering::Equal)
        }
    }
}

impl PartialOrdSpecImpl for Ipv4Inet {
    open spec fn obeys_partial_cmp_spec() -> bool {
        true
    }

    open spec fn partial_cmp_spec(&self, other: &Self) -> Option<Ordering> {
        Some(prefix_order(self@, other@))
    }
}

impl PartialOrd for Ipv6Inet {
    fn partial_cmp(&self, other: &Self) -> (r: Option<Ordering>) {
        let a = self.address.to_bits();
        let b = other.address.to_bits();
        if a < b {
            Some(Ordering::Less)
        } else if a > b {
            Some(Ordering::Greater)
        } else if self.network_length < other.network_length {
            Some(Ordering::Less)
        } else if self.network_length > other.network_length {
            Some(Ordering::Greater)
        } else {
            Some(Ordering::Equal)
        }
    }
}

impl PartialOrdSpecImpl for Ipv6Inet {
    open spec fn obeys_partial_cmp_spec() -> bool {
        true
    }

    open spec fn partial_cmp_spec(&self, other: &Self) -> Option<Ordering> {
        Some(prefix_order(self@, other@))
    }
}

impl PartialOrd for IpInet {
    fn partial_cmp(&self, other: &Self) -> (r: Option<Ordering>) {
        match (self, other) {
            (IpInet::V4(a), IpInet::V4(b)) => a.partial_cmp(b),
            (IpInet::V4(_), IpInet::V6(_)) => Some(Ordering::Less),
            (IpInet::V6(_), IpInet::V4(_)) => Some(Ordering::Greater),
            (IpInet::V6(a), IpInet::V6(b)) => a.partial_cmp(b),
        }
    }
}

impl PartialOrdSpecImpl for IpInet {
    open spec fn obeys_partial_cmp_spec() -> bool {
        true
    }

    open spec fn partial_cmp_spec(&self, other: &Self) -> Option<Ordering> {
        match (*self, *other) {
            (IpInet::V4(a), IpInet::V4(b)) => Some(prefix_order(a@, b@)),
            (IpInet::V4(_), IpInet::V6(_)) => Some(Ordering::Less),
            (IpInet::V6(_), IpInet::V4(_)) => Some(Ordering::Greater),
            (IpInet::V6(a), IpInet::V6(b)) => Some(prefix_order(a@, b@)),
        }
    }
}

impl PartialOrd for Ipv6Cidr {
    fn partial_cmp(&self, other: &Self) -> (r: Option<Ordering>) {
        let a = self.address.to_bits();
        let b = other.address.to_bits();
        if a < b {
            Some(Ordering::Less)
        } else if a > b {
            Some(Ordering::Greater)
        } else if self.network_length < other.network_length {
            Some(Ordering::Less)
        } else if self.network_length > other.network_length {
            Some(Ordering::Greater)
        } else {
            Some(Ordering::Equal)
        }
    }
}

impl PartialOrdSpecImpl for Ipv6Cidr {
    open spec fn obeys_partial_cmp_spec() -> bool {
        true
    }

    open spec fn partial_cmp_spec(&self, other: &Self) -> Option<Ordering> {
        Some(prefix_order(self@, other@))
    }
}

impl PartialOrd for IpCidr {
    fn partial_cmp(&self, other: &Self) -> (r: Option<Ordering>) {
        match (self, other) {
            (IpCidr::V4(a), IpCidr::V4(b)) => a.partial_cmp(b),
            (IpCidr::V4(_), IpCidr::V6(_)) => Some(Ordering::Less),
            (IpCidr::V6(_), IpCidr::V4(_)) => Some(Ordering::Greater),
            (IpCidr::V6(a), IpCidr::V6(b)) => a.partial_cmp(b),
        }
    }
}

impl PartialOrdSpecImpl for IpCidr {
    open spec fn obeys_partial_cmp_spec() -> bool {
        true
    }

    open spec fn partial_cmp_spec(&self, other: &Self) -> Option<Ordering> {
        match (*self, *other) {
            (IpCidr::V4(a), IpCidr::V4(b)) => Some(prefix_order(a@, b@)),
            (IpCidr::V4(_), IpCidr::V6(_)) => Some(Ordering::Less),
            (IpCidr::V6(_), IpCidr::V4(_)) => Some(Ordering::Greater),
            (IpCidr::V6(a), IpCidr::V6(b)) => Some(prefix_order(a@, b@)),
        }
    }
}

impl PartialOrd for AnyIpCidr {
    fn partial_cmp(&self, other: &Self) -> (r: Option<Ordering>) {
        match (self, other) {
            (AnyIpCidr::Any, AnyIpCidr::Any) => Some(Ordering::Equal),
            (AnyIpCidr::Any, _) => Some(Ordering::Less),
            (_, AnyIpCidr::Any) => Some(Ordering::Greater),
            (AnyIpCidr::V4(a), AnyIpCidr::V4(b)) => a.partial_cmp(b),
            (AnyIpCidr::V4(_), AnyIpCidr::V6(_)) => Some(Ordering::Less),
            (AnyIpCidr::V6(_), AnyIpCidr::V4(_)) => Some(Ordering::Greater),
            (AnyIpCidr::V6(a), AnyIpCidr::V6(b)) => a.partial_cmp(b),
        }
    }
}

impl PartialOrdSpecImpl for AnyIpCidr {
    open spec fn obeys_partial_cmp_spec() -> bool {
        true
    }

    open spec fn partial_cmp_spec(&self, other: &Self) -> Option<Ordering> {
        match (*self, *other) {
            (AnyIpCidr::Any, AnyIpCidr::Any) => Some(Ordering::Equal),
            (AnyIpCidr::Any, _) => Some(Ordering::Less),
            (_, AnyIpCidr::Any) => Some(Ordering::Greater),
            (AnyIpCidr::V4(a), AnyIpCidr::V4(b)) => Some(prefix_order(a@, b@)),
            (AnyIpCidr::V4(_), AnyIpCidr::V6(_)) => Some(Ordering::Less),
            (AnyIpCidr::V6(_), AnyIpCidr::V4(_)) => Some(Ordering::Greater),
            (AnyIpCidr::V6(a), AnyIpCidr::V6(b)) => Some(prefix_order(a@, b@)),
        }
    }
}

impl PartialOrd for Ipv4Cidr {
    fn partial_cmp(&self, other: &Self) -> (r: Option<Ordering>) {
        let a = self.address.to_bits();
        let b = other.address.to_bits();
        if a < b {
            Some(Ordering::Less)
        } else if a > b {
            Some(Ordering::Greater)
        } else if self.network_length < other.network_length {
            Some(Ordering::Less)
        } else if self.network_length > other.network_length {
            Some(Ordering::Greater)
        } else {
            Some(Ordering::Equal)
        }
    }
}

impl PartialOrdSpecImpl for Ipv4Cidr {
    open spec fn obeys_partial_cmp_spec() -> bool {
        true
    }

    open spec fn partial_cmp_spec(&self, other: &Self) -> Option<Ordering> {
        Some(prefix_order(self@, other@))
    }
}

} // verus!
