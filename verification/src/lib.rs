//! Types for IP networks and for IP hosts within networks, IPv4 and IPv6.

pub mod addr_text;
pub mod address;
pub mod bigendian;
pub mod bigendian_ops;
pub mod bit_math;
pub mod bit_seq;
pub mod bitstring;
pub mod cidr;
pub mod convert;
pub mod display;
pub mod display_buffer;
pub mod errors;
pub mod family;
pub mod inet;
pub mod inet_iterator;
pub mod inet_pair;
pub mod internal_traits;
pub mod laws;
pub mod local_addr_parser;
pub mod num;
pub mod ordering;
pub mod parsers;
pub mod prefix_math;
pub mod serde_common;
pub mod text;
pub mod traits;

pub use address::{IpAddr, Ipv4Addr, Ipv6Addr};
pub use cidr::{AnyIpCidr, IpCidr, Ipv4Cidr, Ipv6Cidr};
pub use family::Family;
pub use inet::{IpInet, Ipv4Inet, Ipv6Inet};
pub use inet_iterator::{InetAddressIterator, InetIterator};
pub use inet_pair::{IpInetPair, Ipv4InetPair, Ipv6InetPair};
pub use traits::{Address, Cidr, Inet, InetPair};
