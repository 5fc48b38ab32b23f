//! Network addresses as plain values, and the client identity derived from
//! them.

use vstd::prelude::*;

verus! {

/// An IPv4 or IPv6 address.
#[derive(Clone, Copy, Debug, PartialEq, Eq, Structural)]
pub enum IpAddress {
    /// The four octets of an IPv4 address, most significant first.
    V4(u8, u8, u8, u8),
    /// The eight 16-bit segments of an IPv6 address, most significant first.
    V6(u16, u16, u16, u16, u16, u16, u16, u16),
}

/// The number that the four octets of an IPv4 address spell in base 256.
pub open spec fn v4_number(a: u8, b: u8, c: u8, d: u8) -> nat {
    (((a as nat * 256 + b as nat) * 256 + c as nat) * 256 + d as nat)
}

/// The number that the eight segments of an IPv6 address spell in base 65536.
pub open spec fn v6_number(
    a: u16,
    b: u16,
    c: u16,
    d: u16,
    e: u16,
    f: u16,
    g: u16,
    h: u16,
) -> nat {
    (((((((a as nat * 65536 + b as nat) * 65536 + c as nat) * 65536 + d as nat) * 65536
        + e as nat) * 65536 + f as nat) * 65536 + g as nat) * 65536 + h as nat)
}

/// Offset of the IPv4-mapped block `::ffff:0:0/96` inside the IPv6 space.
pub const V4_MAPPED_BASE: u128 = 0xffff_0000_0000;

/// The identity under which requests from `addr` are counted: the address
/// read as a 128-bit number, an IPv4 address taking its IPv4-mapped place.
pub open spec fn client_key_of(addr: IpAddress) -> nat {
    match addr {
        IpAddress::V4(a, b, c, d) => V4_MAPPED_BASE as nat + v4_number(a, b, c, d),
        IpAddress::V6(a, b, c, d, e, f, g, h) => v6_number(a, b, c, d, e, f, g, h),
    }
}

/// Computes the client identity of a source address.
pub fn client_key(addr: &IpAddress) -> (key: u128)
    ensures
        key as nat == client_key_of(*addr),
{
    match *addr {
        IpAddress::V4(a, b, c, d) => {
            let n: u128 = ((a as u128 * 256 + b as u128) * 256 + c as u128) * 256 + d as u128;
            V4_MAPPED_BASE + n
        },
        IpAddress::V6(a, b, c, d, e, f, g, h) => {
            let n1: u128 = a as u128 * 65536 + b as u128;
            let n2: u128 = n1 * 65536 + c as u128;
            let n3: u128 = n2 * 65536 + d as u128;
            let n4: u128 = n3 * 65536 + e as u128;
            let n5: u128 = n4 * 65536 + f as u128;
            let n6: u128 = n5 * 65536 + g as u128;
            n6 * 65536 + h as u128
        },
    }
}

/// Two addresses of the same family share a client identity only if they are
/// the same address.
pub proof fn lemma_client_key_injective(x: IpAddress, y: IpAddress)
    requires
        x is V4 <==> y is V4,
        client_key_of(x) == client_key_of(y),
    ensures
        x == y,
{
}

} // verus!
