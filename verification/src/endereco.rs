//! A player's network address: an IP address and a port, as plain numbers.
use vstd::prelude::*;

verus! {

/// A socket address. Two addresses are equal when all their fields are,
/// as for the standard library's socket addresses.
#[derive(Clone, Copy, Debug, PartialEq, Eq, Structural)]
pub enum Endereco {
    /// An IPv4 address, as its big-endian number, and a port.
    V4 { ipv4: u32, porta: u16 },
    /// An IPv6 address, as its big-endian number, a port, the flow
    /// information and the scope id.
    V6 { ipv6: u128, porta: u16, flowinfo: u32, scope_id: u32 },
}

} // verus!
