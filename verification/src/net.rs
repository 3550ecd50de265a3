use vstd::prelude::*;

verus! {

/// An IPv4 network assignment of an interface: the interface's own address
/// together with the prefix length of the attached network.
#[derive(Clone, Copy)]
pub struct IpNet {
    /// The interface's address on this network, as a 32-bit big-endian value.
    pub addr: u32,
    /// The number of leading bits that identify the network.
    pub prefix: u8,
}

impl IpNet {
    /// A prefix length runs from 0 (the whole address space) to 32 (one host).
    pub open spec fn wf(self) -> bool {
        self.prefix <= 32
    }
}

/// The mask selecting the `prefix` leading bits of an address.
pub open spec fn net_mask(prefix: u8) -> u32 {
    if prefix == 0 {
        0u32
    } else {
        (!0u32) << ((32 - prefix) as u32)
    }
}

/// Standard prefix-match containment: `addr` lies in `net` when the two
/// addresses agree on the network's leading bits.
pub open spec fn net_contains(net: IpNet, addr: u32) -> bool {
    addr & net_mask(net.prefix) == net.addr & net_mask(net.prefix)
}

/// Tests whether `addr` lies inside `net` by prefix matching.
pub fn contains_addr(net: &IpNet, addr: u32) -> (r: bool)
    requires
        net.wf(),
    ensures
        r == net_contains(*net, addr),
{
    let mask: u32 = if net.prefix == 0 {
        0
    } else {
        (!0u32) << ((32 - net.prefix) as u32)
    };
    (addr & mask) == (net.addr & mask)
}

/// The 32-bit value of the dotted-quad address `a.b.c.d`.
pub open spec fn ipv4_value(a: u8, b: u8, c: u8, d: u8) -> u32 {
    ((a as u32) << 24u32) | ((b as u32) << 16u32) | ((c as u32) << 8u32) | (d as u32)
}

/// Builds the 32-bit form of the dotted-quad address `a.b.c.d`.
pub fn ipv4_from_octets(a: u8, b: u8, c: u8, d: u8) -> (r: u32)
    ensures
        r == ipv4_value(a, b, c, d),
{
    ((a as u32) << 24u32) | ((b as u32) << 16u32) | ((c as u32) << 8u32) | (d as u32)
}

} // verus!
