//! Layer 4: TCP (RFC 9293) and UDP (RFC 768) headers, checked against the pseudo-header of
//! the IP header that carried them.
use vstd::prelude::*;

use crate::bytes::{be16, be32, concat, read_be16, read_be32};
use crate::checksum::{
    checksum_of, internet_checksum, is_single_bit, lemma_single_bit_flip_detected,
    lemma_stored_checksum_validates,
};
use crate::ip::{option_slot_is_read_from, read_options, Ipv4Header};
use crate::packet::PacketDissection;

verus! {

// managed by IANA: https://www.iana.org/assignments/tcp-parameters/tcp-parameters.xhtml (section "TCP Header Flags")
pub const TCP_FIN: u8 = 0b0000_0001;

pub const TCP_SYN: u8 = 0b0000_0010;

pub const TCP_RST: u8 = 0b0000_0100;

pub const TCP_PSH: u8 = 0b0000_1000;

pub const TCP_ACK: u8 = 0b0001_0000;

pub const TCP_URG: u8 = 0b0010_0000;

pub const TCP_ECE: u8 = 0b0100_0000;

pub const TCP_CWR: u8 = 0b1000_0000;

/// Whether the checksum over the pseudo-header followed by the whole segment verifies.
pub open spec fn segment_checksum_verifies(segment: Seq<u8>, pseudo_header: Seq<u8>) -> bool {
    checksum_of(pseudo_header + segment) == 0xFFFF
}

/// Computes the checksum over the pseudo-header followed by the whole segment.
fn segment_checksum(segment: &[u8], pseudo_header: &[u8]) -> (r: u16)
    ensures
        r == checksum_of(pseudo_header@ + segment@),
{
    let buf = concat(pseudo_header, segment);
    internet_checksum(buf.as_slice())
}

/// The eight TCP flag bits (FIN, SYN, RST, PSH, ACK, URG, ECE, CWR).
#[derive(Clone, Copy, Debug, Default, Eq, Hash, Ord, PartialEq, PartialOrd)]
pub struct TcpFlags {
    pub bits: u8,
}

impl TcpFlags {
    /// Whether every bit of `flag` (one of the `TCP_*` masks, or several of them or-ed
    /// together) is set.
    pub fn contains(&self, flag: u8) -> (r: bool)
        ensures
            r == (self.bits & flag == flag),
    {
        self.bits & flag == flag
    }
}

/// A TCP header, as defined in RFC9293 section 3.1.
///
/// The data offset is implicit: it is 20 bytes plus 4 for each option word present.
#[derive(Clone, Copy, Debug, Default, Eq, Hash, Ord, PartialEq, PartialOrd)]
pub struct TcpHeader {
    pub source_port: u16,
    pub destination_port: u16,
    pub sequence_number: u32,
    pub acknowledgement_number: u32,
    pub flags: TcpFlags,
    pub window: u16,
    pub checksum: u16,
    pub urgent_pointer: u16,
    /// up to 10 words of 32 bits each
    pub options: [Option<[u8; 4]>; 10],
}

impl TcpHeader {
    /// The header length in bytes that the data offset (high nibble of byte 12) announces.
    pub open spec fn data_offset_of(b: Seq<u8>) -> int {
        (b[12] / 16) * 4
    }

    /// The header that the front of `b` encodes.
    pub open spec fn is_read_from(self, b: Seq<u8>) -> bool {
        let offset = Self::data_offset_of(b);
        &&& self.source_port == be16(b, 0)
        &&& self.destination_port == be16(b, 2)
        &&& self.sequence_number == be32(b, 4)
        &&& self.acknowledgement_number == be32(b, 8)
        &&& self.flags.bits == b[13]
        &&& self.window == be16(b, 14)
        &&& self.checksum == be16(b, 16)
        &&& self.urgent_pointer == be16(b, 18)
        &&& forall|i: int|
            0 <= i < 10 ==> #[trigger] option_slot_is_read_from(self.options@[i], b, offset, i)
    }

    /// Reads a TCP header from the front of `bytes`, after verifying the checksum over
    /// `pseudo_header` followed by the whole segment.
    pub fn try_take<'b, 'h>(bytes: &'b [u8], pseudo_header: &'h [u8]) -> (r: PacketDissection<
        'b,
        Self,
    >)
        ensures
            bytes@.len() < 20 ==> r is TooShort,
            bytes@.len() >= 20 && (Self::data_offset_of(bytes@) < 20 || Self::data_offset_of(
                bytes@,
            ) > bytes@.len()) ==> r is TooShort,
            bytes@.len() >= 20 && 20 <= Self::data_offset_of(bytes@) <= bytes@.len() ==> if segment_checksum_verifies(
                bytes@,
                pseudo_header@,
            ) {
                r matches PacketDissection::Success { header, rest } && {
                    &&& header.is_read_from(bytes@)
                    &&& rest@ == bytes@.subrange(
                        Self::data_offset_of(bytes@),
                        bytes@.len() as int,
                    )
                }
            } else {
                r is IncorrectChecksum
            },
    {
        if bytes.len() < 20 {
            return PacketDissection::TooShort;
        }

        let source_port = read_be16(bytes, 0);
        let destination_port = read_be16(bytes, 2);
        let sequence_number = read_be32(bytes, 4);
        let acknowledgement_number = read_be32(bytes, 8);

        let data_offset_w32 = bytes[12] / 16;
        let data_offset_bytes = (data_offset_w32 as usize) * 4;
        if data_offset_bytes < 20 {
            return PacketDissection::TooShort;
        }
        if bytes.len() < data_offset_bytes {
            return PacketDissection::TooShort;
        }

        let full_checksum = segment_checksum(bytes, pseudo_header);
        if full_checksum != 0xFFFF {
            return PacketDissection::IncorrectChecksum;
        }

        let flags = TcpFlags { bits: bytes[13] };
        let window = read_be16(bytes, 14);
        let checksum = read_be16(bytes, 16);
        let urgent_pointer = read_be16(bytes, 18);

        let options = read_options(bytes, data_offset_bytes);

        let header = TcpHeader {
            source_port,
            destination_port,
            sequence_number,
            acknowledgement_number,
            flags,
            window,
            checksum,
            urgent_pointer,
            options,
        };
        PacketDissection::Success { header, rest: &bytes[data_offset_bytes..bytes.len()] }
    }
}

/// A UDP header, as defined in RFC768, "Format" section.
#[derive(Clone, Copy, Debug, Default, Eq, Hash, Ord, PartialEq, PartialOrd)]
pub struct UdpHeader {
    pub source_port: u16,
    pub destination_port: u16,
    pub length: u16,
    pub checksum: u16,
}

impl UdpHeader {
    /// The header that the first 8 bytes of `b` encode.
    pub open spec fn is_read_from(self, b: Seq<u8>) -> bool {
        &&& self.source_port == be16(b, 0)
        &&& self.destination_port == be16(b, 2)
        &&& self.length == be16(b, 4)
        &&& self.checksum == be16(b, 6)
    }

    /// Reads a UDP header from the front of `bytes`, after verifying the checksum over
    /// `pseudo_header` followed by the whole datagram.
    pub fn try_take<'b, 'h>(bytes: &'b [u8], pseudo_header: &'h [u8]) -> (r: PacketDissection<
        'b,
        Self,
    >)
        ensures
            bytes@.len() < 8 ==> r is TooShort,
            bytes@.len() >= 8 ==> if segment_checksum_verifies(bytes@, pseudo_header@) {
                r matches PacketDissection::Success { header, rest } && {
                    &&& header.is_read_from(bytes@)
                    &&& rest@ == bytes@.subrange(8, bytes@.len() as int)
                }
            } else {
                r is IncorrectChecksum
            },
    {
        if bytes.len() < 8 {
            return PacketDissection::TooShort;
        }

        let source_port = read_be16(bytes, 0);
        let destination_port = read_be16(bytes, 2);
        let length = read_be16(bytes, 4);
        let checksum = read_be16(bytes, 6);

        let full_checksum = segment_checksum(bytes, pseudo_header);
        if full_checksum != 0xFFFF {
            return PacketDissection::IncorrectChecksum;
        }

        let header = UdpHeader { source_port, destination_port, length, checksum };
        PacketDissection::Success { header, rest: &bytes[8..bytes.len()] }
    }
}

/// A UDP datagram whose checksum field holds the checksum computed, with that field zeroed,
/// over the pseudo-header of an IPv4 header followed by the datagram, passes the UDP checksum
/// check under that pseudo-header; the same datagram with any single payload bit flipped
/// fails it.
pub proof fn lemma_udp_checksum_round_trip(ip: Ipv4Header, datagram: Seq<u8>)
    requires
        datagram.len() >= 8,
        be16(datagram, 6) == checksum_of(
            ip.pseudo_header() + datagram.update(6, 0).update(7, 0),
        ),
    ensures
        segment_checksum_verifies(datagram, ip.pseudo_header()),
        forall|j: int, m: u8|
            8 <= j < datagram.len() && is_single_bit(m) ==> !segment_checksum_verifies(
                #[trigger] datagram.update(j, datagram[j] ^ m),
                ip.pseudo_header(),
            ),
{
    let p = ip.pseudo_header();
    let x = p + datagram;
    assert(p.len() == 12);
    assert(x.update(18, 0).update(19, 0) =~= p + datagram.update(6, 0).update(7, 0));
    lemma_stored_checksum_validates(x, 18);
    assert forall|j: int, m: u8|
        8 <= j < datagram.len() && is_single_bit(m) implies !segment_checksum_verifies(
        #[trigger] datagram.update(j, datagram[j] ^ m),
        p,
    ) by {
        lemma_single_bit_flip_detected(x, 12 + j, m);
        assert(x.update(12 + j, x[12 + j] ^ m) =~= p + datagram.update(j, datagram[j] ^ m));
    }
}

} // verus!
