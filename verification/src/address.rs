//! Host addresses and their octets.

use vstd::prelude::*;

verus! {

/// The address of a host, by its octets in network order.
#[derive(Debug, Clone, Copy, PartialEq, Eq)]
pub enum HostAddress {
    /// An IPv4 address.
    V4([u8; 4]),
    /// An IPv6 address.
    V6([u8; 16]),
}

/// The four octets of the IPv4 address with number `addr`, first octet
/// first: the digits of `addr` to the base 256.
pub open spec fn octets_of(addr: u32) -> Seq<u8> {
    seq![
        (addr / 0x100_0000) as u8,
        (addr / 0x1_0000 % 0x100) as u8,
        (addr / 0x100 % 0x100) as u8,
        (addr % 0x100) as u8,
    ]
}

/// The number of the IPv4 address with the given octets.
pub open spec fn number_of(octets: Seq<u8>) -> int
    recommends
        octets.len() == 4,
{
    octets[0] * 0x100_0000 + octets[1] * 0x1_0000 + octets[2] * 0x100 + octets[3]
}

/// `host` is the IPv4 address with number `number`.
pub open spec fn is_ipv4(host: HostAddress, number: int) -> bool {
    host matches HostAddress::V4(octets) && 0 <= number <= u32::MAX && octets@ == octets_of(
        number as u32,
    )
}

proof fn lemma_octets_u32(addr: u32)
    by (bit_vector)
    ensures
        (addr >> 24) as u8 == addr / 0x100_0000,
        (addr >> 16) as u8 == addr / 0x1_0000 % 0x100,
        (addr >> 8) as u8 == addr / 0x100 % 0x100,
        addr as u8 == addr % 0x100,
{
}

/// An address is the number of its octets.
pub proof fn lemma_number_of_octets(addr: u32)
    ensures
        number_of(octets_of(addr)) == addr,
{
}

/// The octets of the IPv4 address with number `addr`.
pub fn ipv4_octets(addr: u32) -> (octets: [u8; 4])
    ensures
        octets@ == octets_of(addr),
{
    proof {
        lemma_octets_u32(addr);
    }
    let octets: [u8; 4] = [(addr >> 24) as u8, (addr >> 16) as u8, (addr >> 8) as u8, addr as u8];
    octets
}

} // verus!
