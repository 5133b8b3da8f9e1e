//! Fixed-width network values read out of byte windows: big-endian integers and addresses.
use vstd::prelude::*;

verus! {

/// Big-endian 16-bit value of `b[i..i + 2]`.
pub open spec fn be16(b: Seq<u8>, i: int) -> u16 {
    (b[i] * 256 + b[i + 1]) as u16
}

/// Big-endian 32-bit value of `b[i..i + 4]`.
pub open spec fn be32(b: Seq<u8>, i: int) -> u32 {
    (b[i] * 0x100_0000 + b[i + 1] * 0x1_0000 + b[i + 2] * 0x100 + b[i + 3]) as u32
}

/// Reads the big-endian 16-bit value at `bytes[i..i + 2]`.
pub fn read_be16(bytes: &[u8], i: usize) -> (r: u16)
    requires
        i + 2 <= bytes@.len(),
    ensures
        r == be16(bytes@, i as int),
{
    (bytes[i] as u16) * 256 + (bytes[i + 1] as u16)
}

/// Reads the big-endian 32-bit value at `bytes[i..i + 4]`.
pub fn read_be32(bytes: &[u8], i: usize) -> (r: u32)
    requires
        i + 4 <= bytes@.len(),
    ensures
        r == be32(bytes@, i as int),
{
    (bytes[i] as u32) * 0x100_0000 + (bytes[i + 1] as u32) * 0x1_0000 + (bytes[i + 2] as u32)
        * 0x100 + (bytes[i + 3] as u32)
}

/// Copies the bytes `bytes[start..start + N]` into an array.
pub fn read_array<const N: usize>(bytes: &[u8], start: usize) -> (r: [u8; N])
    requires
        start + N <= bytes@.len(),
    ensures
        r@ == bytes@.subrange(start as int, start + N),
{
    let len = bytes.len();
    let mut out = [0u8; N];
    let mut i: usize = 0;
    while i < N
        invariant
            i <= N,
            len == bytes@.len(),
            start + N <= len,
            out@.len() == N,
            forall|j: int| 0 <= j < i ==> out@[j] == bytes@[start + j],
        decreases N - i,
    {
        out[i] = bytes[start + i];
        i = i + 1;
    }
    assert(out@ =~= bytes@.subrange(start as int, start + N));
    out
}

/// Concatenation of two byte slices.
pub fn concat(a: &[u8], b: &[u8]) -> (r: Vec<u8>)
    ensures
        r@ == a@ + b@,
{
    let mut out: Vec<u8> = Vec::new();
    let mut i: usize = 0;
    while i < a.len()
        invariant
            i <= a@.len(),
            out@ == a@.subrange(0, i as int),
        decreases a@.len() - i,
    {
        out.push(a[i]);
        i = i + 1;
        assert(out@ =~= a@.subrange(0, i as int));
    }
    let mut j: usize = 0;
    while j < b.len()
        invariant
            j <= b@.len(),
            out@ == a@ + b@.subrange(0, j as int),
        decreases b@.len() - j,
    {
        out.push(b[j]);
        j = j + 1;
        assert(out@ =~= a@ + b@.subrange(0, j as int));
    }
    assert(b@.subrange(0, b@.len() as int) =~= b@);
    out
}

/// A value that is read from the first bytes of a slice.
pub trait TryFromBytes: Sized {
    /// How many bytes the value is read from.
    spec fn width() -> nat;

    /// The bytes that the value holds, in wire order.
    spec fn wire_bytes(&self) -> Seq<u8>;

    /// Reads the value from `bytes[0..width]`; `None` when fewer bytes are given. Bytes past
    /// the width are not read.
    fn try_from_bytes(bytes: &[u8]) -> (r: Option<Self>)
        ensures
            r is Some <==> bytes@.len() >= Self::width(),
            r matches Some(v) ==> v.wire_bytes() == bytes@.subrange(0, Self::width() as int),
    ;
}

/// An IPv4 address, as its four octets in network order.
#[derive(Clone, Copy, Debug, PartialEq, Eq, Hash, PartialOrd, Ord, Default)]
pub struct Ipv4Address {
    pub octets: [u8; 4],
}

/// An IPv6 address, as its sixteen octets in network order.
#[derive(Clone, Copy, Debug, PartialEq, Eq, Hash, PartialOrd, Ord, Default)]
pub struct Ipv6Address {
    pub octets: [u8; 16],
}

/// A MAC-48 hardware address, as its six octets in transmission order.
#[derive(Clone, Copy, Debug, PartialEq, Eq, Hash, PartialOrd, Ord, Default)]
pub struct MacAddress {
    pub octets: [u8; 6],
}

/// The source or destination of an IP packet, of either version.
#[derive(Clone, Copy, Debug, PartialEq, Eq, Hash, PartialOrd, Ord)]
pub enum IpAddress {
    V4(Ipv4Address),
    V6(Ipv6Address),
}

impl TryFromBytes for Ipv4Address {
    open spec fn width() -> nat {
        4
    }

    open spec fn wire_bytes(&self) -> Seq<u8> {
        self.octets@
    }

    fn try_from_bytes(bytes: &[u8]) -> (r: Option<Self>) {
        if bytes.len() < 4 {
            None
        } else {
            Some(Ipv4Address { octets: read_array(bytes, 0) })
        }
    }
}

impl TryFromBytes for Ipv6Address {
    open spec fn width() -> nat {
        16
    }

    open spec fn wire_bytes(&self) -> Seq<u8> {
        self.octets@
    }

    fn try_from_bytes(bytes: &[u8]) -> (r: Option<Self>) {
        if bytes.len() < 16 {
            None
        } else {
            Some(Ipv6Address { octets: read_array(bytes, 0) })
        }
    }
}

impl TryFromBytes for MacAddress {
    open spec fn width() -> nat {
        6
    }

    open spec fn wire_bytes(&self) -> Seq<u8> {
        self.octets@
    }

    fn try_from_bytes(bytes: &[u8]) -> (r: Option<Self>) {
        if bytes.len() < 6 {
            None
        } else {
            Some(MacAddress { octets: read_array(bytes, 0) })
        }
    }
}

impl IpAddress {
    /// Whether two addresses are the same address (same version, same octets).
    pub fn same_as(&self, other: &IpAddress) -> (r: bool)
        ensures
            r <==> *self == *other,
    {
        match (self, other) {
            (IpAddress::V4(a), IpAddress::V4(b)) => octets_equal(&a.octets, &b.octets),
            (IpAddress::V6(a), IpAddress::V6(b)) => octets_equal(&a.octets, &b.octets),
            _ => false,
        }
    }
}

/// Whether two arrays of octets hold the same bytes.
fn octets_equal<const N: usize>(a: &[u8; N], b: &[u8; N]) -> (r: bool)
    ensures
        r <==> *a == *b,
{
    let mut i: usize = 0;
    while i < N
        invariant
            i <= N,
            a@.len() == N,
            b@.len() == N,
            forall|j: int| 0 <= j < i ==> a@[j] == b@[j],
        decreases N - i,
    {
        if a[i] != b[i] {
            return false;
        }
        i = i + 1;
    }
    assert(*a =~= *b);
    true
}

} // verus!
