//! Layer 2: the Ethernet II header and the IEEE 802.1Q VLAN tag.
use vstd::prelude::*;

use crate::bytes::{be16, read_be16, MacAddress, TryFromBytes};
use crate::packet::PacketDissection;

verus! {

// managed by IEEE: https://regauth.standards.ieee.org/standards-ra-web/pub/view.html ("Ethertype")
pub const ETHERTYPE_IPV4: u16 = 0x0800;

pub const ETHERTYPE_VLAN_TAG: u16 = 0x8100;

pub const ETHERTYPE_IPV6: u16 = 0x86DD;

/// An Ethernet II header: destination and source hardware addresses and the ethertype.
#[derive(Clone, Copy, Debug, Default, Eq, Hash, Ord, PartialEq, PartialOrd)]
pub struct EthernetHeader {
    pub destination: MacAddress,
    pub source: MacAddress,
    pub ethertype: u16,
}

impl EthernetHeader {
    /// The header that the first 14 bytes of `b` encode.
    pub open spec fn is_read_from(self, b: Seq<u8>) -> bool {
        &&& self.destination.octets@ == b.subrange(0, 6)
        &&& self.source.octets@ == b.subrange(6, 12)
        &&& self.ethertype == be16(b, 12)
    }

    /// Reads an Ethernet header from the front of `bytes`.
    pub fn try_take(bytes: &[u8]) -> (r: PacketDissection<Self>)
        ensures
            bytes@.len() < 14 <==> r is TooShort,
            bytes@.len() >= 14 ==> (r matches PacketDissection::Success { header, rest } && {
                &&& header.is_read_from(bytes@)
                &&& rest@ == bytes@.subrange(14, bytes@.len() as int)
            }),
    {
        if bytes.len() < 14 {
            return PacketDissection::TooShort;
        }
        let destination = match MacAddress::try_from_bytes(&bytes[0..6]) {
            Some(a) => a,
            None => return PacketDissection::TooShort,
        };
        let source = match MacAddress::try_from_bytes(&bytes[6..12]) {
            Some(a) => a,
            None => return PacketDissection::TooShort,
        };
        assert(destination.octets@ =~= bytes@.subrange(0, 6));
        assert(source.octets@ =~= bytes@.subrange(6, 12));
        let ethertype = read_be16(bytes, 12);
        let header = EthernetHeader { destination, source, ethertype };
        PacketDissection::Success { header, rest: &bytes[14..bytes.len()] }
    }
}

/// The 802.1Q priority code point (PCP) of a VLAN tag.
#[derive(Clone, Copy, Debug, Eq, Hash, Ord, PartialEq, PartialOrd)]
pub enum PriorityCodePoint {
    BestEffort,
    Background,
    ExcellentEffort,
    CriticalApplication,
    Video,
    Voice,
    InternetworkControl,
    NetworkControl,
}

impl PriorityCodePoint {
    /// The three-bit code of this priority.
    pub open spec fn code(self) -> u16 {
        match self {
            PriorityCodePoint::BestEffort => 0,
            PriorityCodePoint::Background => 1,
            PriorityCodePoint::ExcellentEffort => 2,
            PriorityCodePoint::CriticalApplication => 3,
            PriorityCodePoint::Video => 4,
            PriorityCodePoint::Voice => 5,
            PriorityCodePoint::InternetworkControl => 6,
            PriorityCodePoint::NetworkControl => 7,
        }
    }

    /// The priority with the given three-bit code; `None` for a value above 7.
    pub fn from_code(code: u16) -> (r: Option<Self>)
        ensures
            r is Some <==> code < 8,
            r matches Some(p) ==> p.code() == code,
    {
        match code {
            0 => Some(PriorityCodePoint::BestEffort),
            1 => Some(PriorityCodePoint::Background),
            2 => Some(PriorityCodePoint::ExcellentEffort),
            3 => Some(PriorityCodePoint::CriticalApplication),
            4 => Some(PriorityCodePoint::Video),
            5 => Some(PriorityCodePoint::Voice),
            6 => Some(PriorityCodePoint::InternetworkControl),
            7 => Some(PriorityCodePoint::NetworkControl),
            _ => None,
        }
    }
}

impl Default for PriorityCodePoint {
    fn default() -> (r: Self)
        ensures
            r == PriorityCodePoint::BestEffort,
    {
        PriorityCodePoint::BestEffort
    }
}

/// An 802.1Q VLAN tag: the tag control information word, split into its fields, and the
/// ethertype that follows it.
#[derive(Clone, Copy, Debug, Eq, Hash, Ord, PartialEq, PartialOrd)]
pub struct VlanTagHeader {
    pub priority_code_point: PriorityCodePoint,
    pub drop_eligible_indicator: bool,
    pub vlan_id: u16,
    pub ethertype: u16,
}

impl VlanTagHeader {
    /// The tag that the first 4 bytes of `b` encode: the top 3 bits of the tag control word
    /// are the priority, the next bit the drop-eligible flag, the low 12 bits the VLAN id.
    pub open spec fn is_read_from(self, b: Seq<u8>) -> bool {
        let tci = be16(b, 0);
        &&& self.priority_code_point.code() == tci / 0x2000
        &&& self.drop_eligible_indicator == (tci / 0x1000 % 2 == 1)
        &&& self.vlan_id == tci % 0x1000
        &&& self.ethertype == be16(b, 2)
    }

    /// Reads a VLAN tag from the front of `bytes`.
    pub fn try_take(bytes: &[u8]) -> (r: PacketDissection<Self>)
        ensures
            bytes@.len() < 4 <==> r is TooShort,
            bytes@.len() >= 4 ==> (r matches PacketDissection::Success { header, rest } && {
                &&& header.is_read_from(bytes@)
                &&& rest@ == bytes@.subrange(4, bytes@.len() as int)
            }),
    {
        if bytes.len() < 4 {
            return PacketDissection::TooShort;
        }
        let tci = read_be16(bytes, 0);
        let priority_code_point = match PriorityCodePoint::from_code(tci / 0x2000) {
            Some(p) => p,
            None => return PacketDissection::TooShort,
        };
        let drop_eligible_indicator = tci / 0x1000 % 2 == 1;
        let vlan_id = tci % 0x1000;
        let ethertype = read_be16(bytes, 2);
        let header = VlanTagHeader {
            priority_code_point,
            drop_eligible_indicator,
            vlan_id,
            ethertype,
        };
        PacketDissection::Success { header, rest: &bytes[4..bytes.len()] }
    }
}

} // verus!
