//! Network addresses as plain values.

use vstd::prelude::*;

verus! {

/// An IP address, held as the integer that its octets spell in network order.
#[derive(Clone, Copy, Debug, PartialEq, Eq, Structural)]
pub enum IpAddress {
    V4(u32),
    V6(u128),
}

/// Octet `i` of a 32-bit address, counted from the most significant one.
pub open spec fn spec_octet_v4(bits: u32, i: int) -> u8 {
    ((bits >> ((8 * (3 - i)) as u32)) & 0xff) as u8
}

/// Octet `i` of a 128-bit address, counted from the most significant one.
pub open spec fn spec_octet_v6(bits: u128, i: int) -> u8 {
    ((bits >> ((8 * (15 - i)) as u128)) & 0xff) as u8
}

/// The 32 bits of the version 4 address `a.b.c.d`.
pub open spec fn spec_v4_bits(a: u8, b: u8, c: u8, d: u8) -> u32 {
    ((a as u32) << 24u32) | ((b as u32) << 16u32) | ((c as u32) << 8u32) | (d as u32)
}

/// The octets of the address `a.b.c.d` are `a`, `b`, `c` and `d`.
pub proof fn lemma_v4_octets(a: u8, b: u8, c: u8, d: u8)
    ensures
        IpAddress::V4(spec_v4_bits(a, b, c, d)).spec_octets() == seq![a, b, c, d],
{
    let bits = spec_v4_bits(a, b, c, d);
    assert(((((a as u32) << 24u32) | ((b as u32) << 16u32) | ((c as u32) << 8u32) | (d as u32))
        >> 24u32) & 0xff == a as u32) by (bit_vector);
    assert(((((a as u32) << 24u32) | ((b as u32) << 16u32) | ((c as u32) << 8u32) | (d as u32))
        >> 16u32) & 0xff == b as u32) by (bit_vector);
    assert(((((a as u32) << 24u32) | ((b as u32) << 16u32) | ((c as u32) << 8u32) | (d as u32))
        >> 8u32) & 0xff == c as u32) by (bit_vector);
    assert(((((a as u32) << 24u32) | ((b as u32) << 16u32) | ((c as u32) << 8u32) | (d as u32))
        >> 0u32) & 0xff == d as u32) by (bit_vector);
    assert(spec_octet_v4(bits, 0) == a);
    assert(spec_octet_v4(bits, 1) == b);
    assert(spec_octet_v4(bits, 2) == c);
    assert(spec_octet_v4(bits, 3) == d);
    assert(IpAddress::V4(bits).spec_octets() =~= seq![a, b, c, d]);
}

/// Two version 4 addresses with the same octets are the same address.
pub proof fn lemma_v4_octets_tell_the_address(x: u32, y: u32)
    requires
        IpAddress::V4(x).spec_octets() == IpAddress::V4(y).spec_octets(),
    ensures
        x == y,
{
    let xs = IpAddress::V4(x).spec_octets();
    let ys = IpAddress::V4(y).spec_octets();
    assert(xs[0] == spec_octet_v4(x, 0) && ys[0] == spec_octet_v4(y, 0));
    assert(xs[1] == spec_octet_v4(x, 1) && ys[1] == spec_octet_v4(y, 1));
    assert(xs[2] == spec_octet_v4(x, 2) && ys[2] == spec_octet_v4(y, 2));
    assert(xs[3] == spec_octet_v4(x, 3) && ys[3] == spec_octet_v4(y, 3));
    assert((((x >> 24u32) & 0xff) as u8 == ((y >> 24u32) & 0xff) as u8 && ((x >> 16u32) & 0xff) as u8
        == ((y >> 16u32) & 0xff) as u8 && ((x >> 8u32) & 0xff) as u8 == ((y >> 8u32) & 0xff) as u8
        && ((x >> 0u32) & 0xff) as u8 == ((y >> 0u32) & 0xff) as u8) ==> x == y) by (bit_vector);
}

impl IpAddress {
    /// The octets of the address in network order: four for version 4,
    /// sixteen for version 6.
    pub open spec fn spec_octets(self) -> Seq<u8> {
        match self {
            IpAddress::V4(bits) => Seq::new(4, |i: int| spec_octet_v4(bits, i)),
            IpAddress::V6(bits) => Seq::new(16, |i: int| spec_octet_v6(bits, i)),
        }
    }

    /// The version 4 address `a.b.c.d`.
    pub fn from_v4_octets(a: u8, b: u8, c: u8, d: u8) -> (r: IpAddress)
        ensures
            r == IpAddress::V4(spec_v4_bits(a, b, c, d)),
            r.spec_octets() == seq![a, b, c, d],
    {
        proof {
            lemma_v4_octets(a, b, c, d);
        }
        IpAddress::V4(((a as u32) << 24u32) | ((b as u32) << 16u32) | ((c as u32) << 8u32) | (d as u32))
    }

    /// Whether this is a version 4 address.
    pub fn is_v4(&self) -> (r: bool)
        ensures
            r == (*self is V4),
    {
        match self {
            IpAddress::V4(_) => true,
            IpAddress::V6(_) => false,
        }
    }

    /// The octets of the address in network order.
    pub fn octets(&self) -> (r: Vec<u8>)
        ensures
            r@ == self.spec_octets(),
    {
        let mut out: Vec<u8> = Vec::new();
        match self {
            IpAddress::V4(bits) => {
                let bits: u32 = *bits;
                let mut i: u32 = 0;
                while i < 4
                    invariant
                        i <= 4,
                        out@.len() == i,
                        forall|j: int| 0 <= j < i ==> out@[j] == spec_octet_v4(bits, j),
                    decreases 4 - i,
                {
                    let shift: u32 = 8 * (3 - i);
                    out.push(((bits >> shift) & 0xff) as u8);
                    i = i + 1;
                }
                assert(out@ =~= self.spec_octets());
            },
            IpAddress::V6(bits) => {
                let bits: u128 = *bits;
                let mut i: u32 = 0;
                while i < 16
                    invariant
                        i <= 16,
                        out@.len() == i,
                        forall|j: int| 0 <= j < i ==> out@[j] == spec_octet_v6(bits, j),
                    decreases 16 - i,
                {
                    let shift: u128 = (8 * (15 - i)) as u128;
                    out.push(((bits >> shift) & 0xff) as u8);
                    i = i + 1;
                }
                assert(out@ =~= self.spec_octets());
            },
        }
        out
    }
}

/// One end of a UDP flow: an IP address and a port.
#[derive(Clone, Copy, Debug, PartialEq, Eq, Structural)]
pub struct SocketAddress {
    pub ip: IpAddress,
    pub port: u16,
}

impl SocketAddress {
    /// The address `ip:port`.
    pub fn new(ip: IpAddress, port: u16) -> (r: SocketAddress)
        ensures
            r.ip == ip,
            r.port == port,
    {
        SocketAddress { ip, port }
    }
}

/// A network path: the local and the peer end of one UDP flow.
#[derive(Clone, Copy, Debug, PartialEq, Eq, Structural)]
pub struct FourTuple {
    pub local_addr: SocketAddress,
    pub peer_addr: SocketAddress,
}

} // verus!
