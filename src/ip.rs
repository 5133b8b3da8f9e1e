//! Layer 3: IPv4 (RFC 791) and IPv6 (RFC 8200) headers, and the pseudo-headers that bind
//! layer-4 checksums to them.
use vstd::prelude::*;

use crate::bytes::{be16, be32, read_array, read_be16, read_be32, IpAddress, Ipv4Address, Ipv6Address, TryFromBytes};
use crate::checksum::{checksum_of, internet_checksum};
use crate::packet::PacketDissection;

verus! {

// managed by IANA: https://www.iana.org/assignments/protocol-numbers/protocol-numbers.xhtml#protocol-numbers-1
pub const PROTO_TCP: u8 = 6;

pub const PROTO_UDP: u8 = 17;

/// Number of present entries in a list of option words.
pub open spec fn count_present(s: Seq<Option<[u8; 4]>>) -> nat
    decreases s.len(),
{
    if s.len() == 0 {
        0
    } else {
        count_present(s.drop_last()) + if s.last() is Some {
            1nat
        } else {
            0nat
        }
    }
}

/// Whether the option slot `i` holds what a header of `header_length` bytes at the front of
/// `b` carries there: the word at `20 + 4 * i` while that lies inside the header, else nothing.
pub open spec fn option_slot_is_read_from(
    slot: Option<[u8; 4]>,
    b: Seq<u8>,
    header_length: int,
    i: int,
) -> bool {
    if 20 + 4 * i < header_length {
        slot matches Some(w) && w@ == b.subrange(20 + 4 * i, 24 + 4 * i)
    } else {
        slot is None
    }
}

/// Number of option words present in a slot list.
fn present_options(options: &[Option<[u8; 4]>; 10]) -> (r: u16)
    ensures
        r == count_present(options@),
        r <= 10,
{
    let mut count: u16 = 0;
    let mut i: usize = 0;
    while i < 10
        invariant
            i <= 10,
            options@.len() == 10,
            count == count_present(options@.subrange(0, i as int)),
            count <= i,
        decreases 10 - i,
    {
        assert(options@.subrange(0, i + 1).drop_last() =~= options@.subrange(0, i as int));
        if options[i].is_some() {
            count = count + 1;
        }
        i = i + 1;
    }
    assert(options@.subrange(0, 10) =~= options@);
    count
}

/// Reads the option words of a header of `header_length` bytes at the front of `bytes`: the
/// header has 20 fixed bytes, then one 32-bit word per slot while the header lasts.
pub fn read_options(bytes: &[u8], header_length: usize) -> (r: [Option<[u8; 4]>; 10])
    requires
        20 <= header_length <= 60,
        header_length % 4 == 0,
        header_length <= bytes@.len(),
    ensures
        forall|i: int|
            0 <= i < 10 ==> #[trigger] option_slot_is_read_from(
                r@[i],
                bytes@,
                header_length as int,
                i,
            ),
{
    let mut options: [Option<[u8; 4]>; 10] = [None; 10];
    let mut i: usize = 0;
    while 20 + (i * 4) < header_length
        invariant
            header_length <= bytes@.len(),
            header_length <= 60,
            header_length % 4 == 0,
            i <= 10,
            20 + 4 * i <= header_length,
            options@.len() == 10,
            forall|j: int|
                0 <= j < i ==> option_slot_is_read_from(
                    options@[j],
                    bytes@,
                    header_length as int,
                    j,
                ),
            forall|j: int| i <= j < 10 ==> options@[j] is None,
        decreases 10 - i,
    {
        let word: [u8; 4] = read_array(bytes, 20 + (i * 4));
        options[i] = Some(word);
        i = i + 1;
    }
    options
}

/// `a - b` on 16-bit values, wrapping around below zero.
pub open spec fn sub_wrapping(a: u16, b: int) -> u16 {
    if a >= b {
        (a - b) as u16
    } else {
        (a - b + 0x1_0000) as u16
    }
}

/// An IPv4 header, as defined in RFC791 section 3.1.
///
/// The header length is implicit: it is 20 bytes plus 4 for each option word present.
#[derive(Clone, Copy, Debug, Eq, Hash, Ord, PartialEq, PartialOrd)]
pub struct Ipv4Header {
    pub version: u8,
    pub type_of_service: u8,
    pub total_length: u16,
    pub identification: u16,
    pub flags_and_fragment_offset: u16,
    pub time_to_live: u8,
    pub protocol: u8,
    pub header_checksum: u16,
    pub source_address: Ipv4Address,
    pub destination_address: Ipv4Address,
    /// up to 10 words of 32 bits each
    pub options: [Option<[u8; 4]>; 10],
}

impl Ipv4Header {
    /// The header length in bytes that the first byte of `b` announces (its low nibble counts
    /// 32-bit words).
    pub open spec fn header_length_of(b: Seq<u8>) -> int {
        (b[0] % 16) * 4
    }

    /// The header that the front of `b` encodes.
    pub open spec fn is_read_from(self, b: Seq<u8>) -> bool {
        let hl = Self::header_length_of(b);
        &&& self.version == b[0] / 16
        &&& self.type_of_service == b[1]
        &&& self.total_length == be16(b, 2)
        &&& self.identification == be16(b, 4)
        &&& self.flags_and_fragment_offset == be16(b, 6)
        &&& self.time_to_live == b[8]
        &&& self.protocol == b[9]
        &&& self.header_checksum == be16(b, 10)
        &&& self.source_address.octets@ == b.subrange(12, 16)
        &&& self.destination_address.octets@ == b.subrange(16, 20)
        &&& forall|i: int|
            0 <= i < 10 ==> #[trigger] option_slot_is_read_from(self.options@[i], b, hl, i)
    }

    /// The header that the front of `b` encodes (there is exactly one).
    pub open spec fn decoded(b: Seq<u8>) -> Ipv4Header {
        choose|h: Ipv4Header| h.is_read_from(b)
    }

    /// A byte window encodes at most one header.
    pub proof fn lemma_read_is_unique(h1: Ipv4Header, h2: Ipv4Header, b: Seq<u8>)
        requires
            h1.is_read_from(b),
            h2.is_read_from(b),
        ensures
            h1 == h2,
    {
        assert(h1.source_address.octets =~= h2.source_address.octets);
        assert(h1.destination_address.octets =~= h2.destination_address.octets);
        let hl = Self::header_length_of(b);
        assert forall|i: int| 0 <= i < 10 implies h1.options[i] == h2.options[i] by {
            assert(option_slot_is_read_from(h1.options@[i], b, hl, i));
            assert(option_slot_is_read_from(h2.options@[i], b, hl, i));
            if 20 + 4 * i < hl {
                assert(h1.options[i]->0 =~= h2.options[i]->0);
            }
        }
        assert(h1.options =~= h2.options);
    }

    /// A header read from `b` is the one that `b` encodes.
    pub proof fn lemma_read_is_decoded(h: Ipv4Header, b: Seq<u8>)
        requires
            h.is_read_from(b),
        ensures
            h == Self::decoded(b),
    {
        Self::lemma_read_is_unique(h, Self::decoded(b), b);
    }

    /// Reads an IPv4 header from the front of `bytes` and verifies its checksum.
    pub fn try_take(bytes: &[u8]) -> (r: PacketDissection<Self>)
        ensures
            bytes@.len() < 20 ==> r is TooShort,
            bytes@.len() >= 20 && bytes@[0] / 16 != 4 ==> r is WrongType,
            bytes@.len() >= 20 && bytes@[0] / 16 == 4 && (Self::header_length_of(bytes@) < 20
                || Self::header_length_of(bytes@) > bytes@.len()) ==> r is TooShort,
            bytes@.len() >= 20 && bytes@[0] / 16 == 4 && 20 <= Self::header_length_of(bytes@)
                <= bytes@.len() ==> if checksum_of(
                bytes@.subrange(0, Self::header_length_of(bytes@)),
            ) == 0xFFFF {
                r matches PacketDissection::Success { header, rest } && {
                    &&& header.is_read_from(bytes@)
                    &&& rest@ == bytes@.subrange(
                        Self::header_length_of(bytes@),
                        bytes@.len() as int,
                    )
                }
            } else {
                r is IncorrectChecksum
            },
    {
        if bytes.len() < 20 {
            return PacketDissection::TooShort;
        }

        let version = bytes[0] / 16;
        if version != 4 {
            return PacketDissection::WrongType;
        }

        let header_length_w32 = bytes[0] % 16;
        let header_length_bytes = (header_length_w32 as usize) * 4;
        if header_length_bytes < 20 {
            return PacketDissection::TooShort;
        }
        if bytes.len() < header_length_bytes {
            return PacketDissection::TooShort;
        }

        let full_checksum = internet_checksum(&bytes[0..header_length_bytes]);
        if full_checksum != 0xFFFF {
            return PacketDissection::IncorrectChecksum;
        }

        let type_of_service = bytes[1];
        let total_length = read_be16(bytes, 2);
        let identification = read_be16(bytes, 4);
        let flags_and_fragment_offset = read_be16(bytes, 6);
        let time_to_live = bytes[8];
        let protocol = bytes[9];
        let header_checksum = read_be16(bytes, 10);
        let source_address = match Ipv4Address::try_from_bytes(&bytes[12..16]) {
            Some(a) => a,
            None => return PacketDissection::TooShort,
        };
        let destination_address = match Ipv4Address::try_from_bytes(&bytes[16..20]) {
            Some(a) => a,
            None => return PacketDissection::TooShort,
        };
        assert(source_address.octets@ =~= bytes@.subrange(12, 16));
        assert(destination_address.octets@ =~= bytes@.subrange(16, 20));

        let options = read_options(bytes, header_length_bytes);

        let header = Ipv4Header {
            version,
            type_of_service,
            total_length,
            identification,
            flags_and_fragment_offset,
            time_to_live,
            protocol,
            header_checksum,
            source_address,
            destination_address,
            options,
        };
        PacketDissection::Success { header, rest: &bytes[header_length_bytes..bytes.len()] }
    }

    /// Length of the layer-4 segment that the pseudo-header announces: the total length less
    /// the header (20 bytes and 4 per option word), wrapping around on a bogus total length so
    /// that the layer-4 checksum then fails.
    pub open spec fn l4_length(self) -> u16 {
        sub_wrapping(self.total_length, 20 + 4 * count_present(self.options@) as int)
    }

    /// The pseudo-header (RFC 9293) that is "mixed into" TCP and UDP checksum calculation:
    /// source, destination, a zero byte, the protocol and the big-endian layer-4 length.
    pub open spec fn pseudo_header(self) -> Seq<u8> {
        self.source_address.octets@ + self.destination_address.octets@ + seq![
            0u8,
            self.protocol,
            (self.l4_length() / 256) as u8,
            (self.l4_length() % 256) as u8,
        ]
    }

    /// Returns the representation of this IPv4 header as the pseudo-header which is "mixed into"
    /// TCP and UDP checksum calculation.
    pub fn to_pseudo_header(&self) -> (r: [u8; 12])
        ensures
            r@ == self.pseudo_header(),
    {
        let src_addr_bytes = self.source_address.octets;
        let dest_addr_bytes = self.destination_address.octets;

        let header_bytes = 20 + 4 * present_options(&self.options);
        let l4_length = self.total_length.wrapping_sub(header_bytes);

        let mut pseudo_header = [0u8; 12];
        let mut i: usize = 0;
        while i < 4
            invariant
                i <= 4,
                pseudo_header@.len() == 12,
                src_addr_bytes@.len() == 4,
                dest_addr_bytes@.len() == 4,
                forall|j: int| 0 <= j < i ==> pseudo_header@[j] == src_addr_bytes@[j],
                forall|j: int| 0 <= j < i ==> pseudo_header@[4 + j] == dest_addr_bytes@[j],
                forall|j: int| 8 <= j < 12 ==> pseudo_header@[j] == 0,
            decreases 4 - i,
        {
            pseudo_header[i] = src_addr_bytes[i];
            pseudo_header[4 + i] = dest_addr_bytes[i];
            i = i + 1;
        }
        // pseudo_header[8] remains 0
        pseudo_header[9] = self.protocol;
        pseudo_header[10] = (l4_length / 256) as u8;
        pseudo_header[11] = (l4_length % 256) as u8;
        assert(pseudo_header@ =~= self.pseudo_header());
        pseudo_header
    }
}

impl Default for Ipv4Header {
    fn default() -> (r: Self)
        ensures
            r.version == 0 && r.type_of_service == 0 && r.total_length == 0,
            r.identification == 0 && r.flags_and_fragment_offset == 0,
            r.time_to_live == 0 && r.protocol == 0 && r.header_checksum == 0,
            r.source_address.octets@ == seq![0u8, 0, 0, 0],
            r.destination_address.octets@ == seq![0u8, 0, 0, 0],
            forall|i: int| 0 <= i < 10 ==> r.options@[i] is None,
    {
        let header = Ipv4Header {
            version: 0,
            type_of_service: 0,
            total_length: 0,
            identification: 0,
            flags_and_fragment_offset: 0,
            time_to_live: 0,
            protocol: 0,
            header_checksum: 0,
            source_address: Ipv4Address { octets: [0u8; 4] },
            destination_address: Ipv4Address { octets: [0u8; 4] },
            options: [None; 10],
        };
        assert(header.source_address.octets@ =~= seq![0u8, 0, 0, 0]);
        assert(header.destination_address.octets@ =~= seq![0u8, 0, 0, 0]);
        header
    }
}

/// An IPv6 header, as defined in RFC8200 section 3.
#[derive(Clone, Copy, Debug, Eq, Hash, Ord, PartialEq, PartialOrd)]
pub struct Ipv6Header {
    pub version: u8,
    pub traffic_class: u8,
    pub flow_label: u32,
    /// in bytes
    pub payload_length: u16,
    /// comparable with the IPv4 protocol
    pub next_header: u8,
    /// comparable with the IPv4 time to live
    pub hop_limit: u8,
    pub source_address: Ipv6Address,
    pub destination_address: Ipv6Address,
}

impl Ipv6Header {
    /// The version that the top 4 bits of `b` announce.
    pub open spec fn version_of(b: Seq<u8>) -> int {
        be32(b, 0) as int / 0x1000_0000
    }

    /// The header that the first 40 bytes of `b` encode: the first 32-bit word packs version
    /// (4 bits), traffic class (8 bits) and flow label (20 bits).
    pub open spec fn is_read_from(self, b: Seq<u8>) -> bool {
        let first = be32(b, 0);
        &&& self.version == first / 0x1000_0000
        &&& self.traffic_class == first / 0x10_0000 % 0x100
        &&& self.flow_label == first % 0x10_0000
        &&& self.payload_length == be16(b, 4)
        &&& self.next_header == b[6]
        &&& self.hop_limit == b[7]
        &&& self.source_address.octets@ == b.subrange(8, 24)
        &&& self.destination_address.octets@ == b.subrange(24, 40)
    }

    /// The header that the first 40 bytes of `b` encode (there is exactly one).
    pub open spec fn decoded(b: Seq<u8>) -> Ipv6Header {
        choose|h: Ipv6Header| h.is_read_from(b)
    }

    /// A byte window encodes at most one header.
    pub proof fn lemma_read_is_unique(h1: Ipv6Header, h2: Ipv6Header, b: Seq<u8>)
        requires
            h1.is_read_from(b),
            h2.is_read_from(b),
        ensures
            h1 == h2,
    {
        assert(h1.source_address.octets =~= h2.source_address.octets);
        assert(h1.destination_address.octets =~= h2.destination_address.octets);
    }

    /// A header read from `b` is the one that `b` encodes.
    pub proof fn lemma_read_is_decoded(h: Ipv6Header, b: Seq<u8>)
        requires
            h.is_read_from(b),
        ensures
            h == Self::decoded(b),
    {
        Self::lemma_read_is_unique(h, Self::decoded(b), b);
    }

    /// The version nibble is the high nibble of the first byte.
    pub proof fn lemma_version_is_high_nibble(b: Seq<u8>)
        requires
            b.len() >= 4,
        ensures
            Self::version_of(b) == b[0] / 16,
    {
        let low = b[1] * 0x1_0000 + b[2] * 0x100 + b[3];
        assert(0 <= low < 0x100_0000);
        let b0 = b[0] as int;
        assert((b0 * 0x100_0000 + low) / 0x1000_0000 == b0 / 16) by (nonlinear_arith)
            requires
                0 <= low < 0x100_0000,
                0 <= b0 < 256,
        ;
    }

    /// Reads an IPv6 header from the front of `bytes`. IPv6 has no header checksum; the
    /// layer-4 checksum covers it through the pseudo-header.
    pub fn try_take(bytes: &[u8]) -> (r: PacketDissection<Self>)
        ensures
            bytes@.len() < 40 ==> r is TooShort,
            bytes@.len() >= 40 && Self::version_of(bytes@) != 6 ==> r is WrongType,
            bytes@.len() >= 40 && Self::version_of(bytes@) == 6 ==> (
            r matches PacketDissection::Success { header, rest } && {
                &&& header.is_read_from(bytes@)
                &&& rest@ == bytes@.subrange(40, bytes@.len() as int)
            }),
    {
        if bytes.len() < 40 {
            return PacketDissection::TooShort;
        }

        let first_field = read_be32(bytes, 0);

        let version = (first_field / 0x1000_0000) as u8;
        if version != 6 {
            return PacketDissection::WrongType;
        }
        let traffic_class = (first_field / 0x10_0000 % 0x100) as u8;
        let flow_label = first_field % 0x10_0000;

        let payload_length = read_be16(bytes, 4);
        let next_header = bytes[6];
        let hop_limit = bytes[7];

        let source_address = match Ipv6Address::try_from_bytes(&bytes[8..24]) {
            Some(a) => a,
            None => return PacketDissection::TooShort,
        };
        let destination_address = match Ipv6Address::try_from_bytes(&bytes[24..40]) {
            Some(a) => a,
            None => return PacketDissection::TooShort,
        };
        assert(source_address.octets@ =~= bytes@.subrange(8, 24));
        assert(destination_address.octets@ =~= bytes@.subrange(24, 40));

        let header = Ipv6Header {
            version,
            traffic_class,
            flow_label,
            payload_length,
            next_header,
            hop_limit,
            source_address,
            destination_address,
        };

        PacketDissection::Success { header, rest: &bytes[40..bytes.len()] }
    }

    /// The "upper-layer length" that the pseudo-header announces: the payload length less 40,
    /// wrapping around on a payload length below 40.
    pub open spec fn l4_length(self) -> u16 {
        sub_wrapping(self.payload_length, 40)
    }

    /// The pseudo-header (RFC 8200 section 8.1): source, destination, the big-endian 32-bit
    /// upper-layer length, three zero bytes and the next header.
    pub open spec fn pseudo_header(self) -> Seq<u8> {
        self.source_address.octets@ + self.destination_address.octets@ + seq![
            0u8,
            0u8,
            (self.l4_length() / 256) as u8,
            (self.l4_length() % 256) as u8,
            0u8,
            0u8,
            0u8,
            self.next_header,
        ]
    }

    /// Returns the representation of this IPv6 header as the pseudo-header which is "mixed into"
    /// TCP and UDP checksum calculation.
    pub fn to_pseudo_header(&self) -> (r: [u8; 40])
        ensures
            r@ == self.pseudo_header(),
    {
        let src_addr_bytes = self.source_address.octets;
        let dest_addr_bytes = self.destination_address.octets;

        let l4_length = self.payload_length.wrapping_sub(40);

        let mut pseudo_header = [0u8; 40];
        let mut i: usize = 0;
        while i < 16
            invariant
                i <= 16,
                pseudo_header@.len() == 40,
                src_addr_bytes@.len() == 16,
                dest_addr_bytes@.len() == 16,
                forall|j: int| 0 <= j < i ==> pseudo_header@[j] == src_addr_bytes@[j],
                forall|j: int| 0 <= j < i ==> pseudo_header@[16 + j] == dest_addr_bytes@[j],
                forall|j: int| 32 <= j < 40 ==> pseudo_header@[j] == 0,
            decreases 16 - i,
        {
            pseudo_header[i] = src_addr_bytes[i];
            pseudo_header[16 + i] = dest_addr_bytes[i];
            i = i + 1;
        }
        // the high half of the 32-bit length and pseudo_header[36..39] remain 0
        pseudo_header[34] = (l4_length / 256) as u8;
        pseudo_header[35] = (l4_length % 256) as u8;
        pseudo_header[39] = self.next_header;
        assert(pseudo_header@ =~= self.pseudo_header());
        pseudo_header
    }
}

impl Default for Ipv6Header {
    fn default() -> (r: Self)
        ensures
            r.version == 0 && r.traffic_class == 0 && r.flow_label == 0,
            r.payload_length == 0 && r.next_header == 0 && r.hop_limit == 0,
            forall|i: int| 0 <= i < 16 ==> r.source_address.octets@[i] == 0,
            forall|i: int| 0 <= i < 16 ==> r.destination_address.octets@[i] == 0,
    {
        Ipv6Header {
            version: 0,
            traffic_class: 0,
            flow_label: 0,
            payload_length: 0,
            next_header: 0,
            hop_limit: 0,
            source_address: Ipv6Address { octets: [0u8; 16] },
            destination_address: Ipv6Address { octets: [0u8; 16] },
        }
    }
}

/// An IP header of either version.
#[derive(Clone, Copy, Debug, Eq, Hash, Ord, PartialEq, PartialOrd)]
pub enum IpHeader {
    V4(Ipv4Header),
    V6(Ipv6Header),
}

impl IpHeader {
    /// The protocol number of the payload: the IPv4 protocol or the IPv6 next header.
    pub open spec fn protocol_of(self) -> u8 {
        match self {
            IpHeader::V4(h) => h.protocol,
            IpHeader::V6(h) => h.next_header,
        }
    }

    /// The significant bytes of the pseudo-header for this header.
    pub open spec fn pseudo_header(self) -> Seq<u8> {
        match self {
            IpHeader::V4(h) => h.pseudo_header(),
            IpHeader::V6(h) => h.pseudo_header(),
        }
    }

    /// The source address, of either version.
    pub open spec fn source_of(self) -> IpAddress {
        match self {
            IpHeader::V4(h) => IpAddress::V4(h.source_address),
            IpHeader::V6(h) => IpAddress::V6(h.source_address),
        }
    }

    /// The protocol number of the payload, whatever the IP version.
    pub fn inner_protocol(&self) -> (r: u8)
        ensures
            r == self.protocol_of(),
    {
        match self {
            IpHeader::V4(h) => h.protocol,
            IpHeader::V6(h) => h.next_header,
        }
    }

    /// The address the packet came from.
    pub fn source_address(&self) -> (r: IpAddress)
        ensures
            r == self.source_of(),
    {
        match self {
            IpHeader::V4(h) => IpAddress::V4(h.source_address),
            IpHeader::V6(h) => IpAddress::V6(h.source_address),
        }
    }

    /// The pseudo-header in a 40-byte buffer, with the number of leading bytes that are
    /// significant (12 for IPv4, 40 for IPv6); the bytes after those are zero.
    pub fn to_pseudo_header(&self) -> (r: ([u8; 40], usize))
        ensures
            r.1 == self.pseudo_header().len(),
            r.1 == if self is V4 {
                12usize
            } else {
                40usize
            },
            r.0@.subrange(0, r.1 as int) == self.pseudo_header(),
            forall|i: int| r.1 <= i < 40 ==> r.0@[i] == 0,
    {
        match self {
            IpHeader::V4(h) => {
                let ph = h.to_pseudo_header();
                let mut buf = [0u8; 40];
                let mut i: usize = 0;
                while i < 12
                    invariant
                        i <= 12,
                        buf@.len() == 40,
                        ph@.len() == 12,
                        forall|j: int| 0 <= j < i ==> buf@[j] == ph@[j],
                        forall|j: int| 12 <= j < 40 ==> buf@[j] == 0,
                    decreases 12 - i,
                {
                    buf[i] = ph[i];
                    i = i + 1;
                }
                assert(buf@.subrange(0, 12) =~= ph@);
                (buf, 12)
            },
            IpHeader::V6(h) => {
                let ph = h.to_pseudo_header();
                assert(ph@.subrange(0, 40) =~= ph@);
                (ph, 40)
            },
        }
    }
}

} // verus!
