//! Various error types returned by functions in this crate.

use vstd::prelude::*;
use crate::family::Family;

verus! {

/// Error returned when the network length was longer than the address.
#[derive(Clone, Copy, PartialEq, Eq, Structural, Hash, Debug)]
pub struct NetworkLengthTooLongError(pub usize, pub Family);

impl NetworkLengthTooLongError {
    /// The error for a network length `len` that is too long for `family`.
    pub fn new(len: usize, family: Family) -> (e: Self)
        ensures
            e == NetworkLengthTooLongError(len, family),
    {
        NetworkLengthTooLongError(len, family)
    }
}

/// Why a text is not an address.
#[derive(Clone, Copy, PartialEq, Eq, Structural, Hash, Debug)]
pub enum AddrParseError {
    /// the text is no IP address of either family
    Ip,
    /// the text is no IPv4 address
    Ipv4,
    /// the text is no IPv6 address
    Ipv6,
}

/// Why a text is not a number that fits the type asked for.
#[derive(Clone, Copy, PartialEq, Eq, Structural, Hash, Debug)]
pub enum ParseIntError {
    /// the text is empty
    Empty,
    /// the text holds something that is no digit
    InvalidDigit,
    /// the number is too large
    PosOverflow,
}

/// Error type returned when parsing IP networks.
#[derive(Clone, Copy, PartialEq, Eq, Structural, Hash, Debug)]
pub enum NetworkParseError {
    /// The host part wasn't zero but should have been. The `Cidr` types
    /// require that you use the first address in the network (and the
    /// network length) to represent the address, but it wasn't the
    /// first address.
    InvalidHostPart,
    /// Failed to parse the address
    AddrParseError(AddrParseError),
    /// Failed to parse the network length
    NetworkLengthParseError(ParseIntError),
    /// The network length was not valid (but was successfully parsed)
    NetworkLengthTooLongError(NetworkLengthTooLongError),
}

/// Error type returned when creating an `Inet` pair.
#[derive(Clone, Copy, PartialEq, Eq, Structural, Hash, Debug)]
pub enum InetTupleError {
    /// The given addresses are not in the same network
    NotInSharedNetwork,
    /// The network length was not valid (but was successfully parsed)
    NetworkLengthTooLongError(NetworkLengthTooLongError),
}

} // verus!
