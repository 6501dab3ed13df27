//! Network addresses as plain values.

use vstd::prelude::*;

verus! {

/// A socket address: an IPv4 address (in the low 32 bits) or an IPv6
/// address, and a port.
#[derive(Debug, Clone, Copy, PartialEq, Eq, Hash)]
pub struct PeerAddr {
    pub ip: u128,
    pub is_v6: bool,
    pub port: u16,
}

} // verus!
