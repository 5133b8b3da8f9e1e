//! The decisions of the capture pipeline: what the consumer makes of each captured frame
//! (layer 2, optional VLAN unwrap, layer 3, UDP, DNS, statistics), and what the producer does
//! after each poll of the capture source.
use vstd::prelude::*;

use crate::bytes::{be16, IpAddress};
use crate::checksum::checksum_of;
use crate::dns::{decode_dns, dns_decoded, DnsMessage};
use crate::ethernet::{
    EthernetHeader, VlanTagHeader, ETHERTYPE_IPV4, ETHERTYPE_IPV6, ETHERTYPE_VLAN_TAG,
};
use crate::ip::{IpHeader, Ipv4Header, Ipv6Header, PROTO_UDP};
use crate::packet::{OwnedPacket, PacketDissection, Timestamp};
use crate::stats::{empty_stats, with_questions, DnsStats, StatsView};
use crate::tcp_udp::{segment_checksum_verifies, UdpHeader};

verus! {

/// Why a layer parser took no header.
#[derive(Clone, Copy, Debug, PartialEq, Eq, Hash)]
pub enum ParseFailure {
    TooShort,
    WrongType,
    IncorrectChecksum,
}

/// The stage at which the consumer dropped a frame.
#[derive(Clone, Copy, Debug, PartialEq, Eq, Hash)]
pub enum DropReason {
    /// The outer Ethernet header could not be read.
    Ethernet(ParseFailure),
    /// The VLAN tag could not be read.
    VlanTag(ParseFailure),
    /// The Ethernet header inside a VLAN-tagged frame could not be read.
    InnerEthernet(ParseFailure),
    /// The ethertype (the inner one, for a VLAN-tagged frame) is neither IPv4 nor IPv6.
    UnknownEthertype(u16),
    /// The frame ends before the IP header.
    MissingIpHeader,
    /// The IP version nibble is neither 4 nor 6.
    UnknownIpVersion(u8),
    Ipv4(ParseFailure),
    Ipv6(ParseFailure),
    /// The IP payload is not UDP; it carries this protocol number.
    NotUdp(u8),
    Udp(ParseFailure),
    /// The UDP payload is not a DNS message.
    Dns,
    /// Counting the message's questions would overflow the query counter.
    CounterFull,
}

/// The failure that a parse outcome other than success stands for.
fn failure_of<H>(d: &PacketDissection<H>) -> (f: ParseFailure)
    requires
        !(d is Success),
    ensures
        d is TooShort ==> f == ParseFailure::TooShort,
        d is WrongType ==> f == ParseFailure::WrongType,
        d is IncorrectChecksum ==> f == ParseFailure::IncorrectChecksum,
{
    match d {
        PacketDissection::WrongType => ParseFailure::WrongType,
        PacketDissection::IncorrectChecksum => ParseFailure::IncorrectChecksum,
        _ => ParseFailure::TooShort,
    }
}

/// What the link layer makes of frame `b`: the offset at which the IP bytes start, or why
/// the frame is dropped. A VLAN-tagged frame (outer ethertype 0x8100) is a 14-byte Ethernet
/// header, a 4-byte tag and a 14-byte inner Ethernet header whose ethertype counts.
pub open spec fn link_verdict(b: Seq<u8>) -> Result<int, DropReason> {
    if b.len() < 14 {
        Err(DropReason::Ethernet(ParseFailure::TooShort))
    } else if be16(b, 12) == ETHERTYPE_VLAN_TAG {
        if b.len() < 18 {
            Err(DropReason::VlanTag(ParseFailure::TooShort))
        } else if b.len() < 32 {
            Err(DropReason::InnerEthernet(ParseFailure::TooShort))
        } else if be16(b, 30) != ETHERTYPE_IPV4 && be16(b, 30) != ETHERTYPE_IPV6 {
            Err(DropReason::UnknownEthertype(be16(b, 30)))
        } else {
            Ok(32)
        }
    } else if be16(b, 12) != ETHERTYPE_IPV4 && be16(b, 12) != ETHERTYPE_IPV6 {
        Err(DropReason::UnknownEthertype(be16(b, 12)))
    } else {
        Ok(14)
    }
}

/// What the IP layer makes of the bytes `p` after the link layer: the header, dispatched on the
/// version nibble, and its length, or why the frame is dropped.
pub open spec fn ip_verdict(p: Seq<u8>) -> Result<(IpHeader, int), DropReason> {
    if p.len() < 1 {
        Err(DropReason::MissingIpHeader)
    } else if p[0] / 16 == 4 {
        let hl = Ipv4Header::header_length_of(p);
        if p.len() < 20 || hl < 20 || hl > p.len() {
            Err(DropReason::Ipv4(ParseFailure::TooShort))
        } else if checksum_of(p.subrange(0, hl)) != 0xFFFF {
            Err(DropReason::Ipv4(ParseFailure::IncorrectChecksum))
        } else {
            Ok((IpHeader::V4(Ipv4Header::decoded(p)), hl))
        }
    } else if p[0] / 16 == 6 {
        if p.len() < 40 {
            Err(DropReason::Ipv6(ParseFailure::TooShort))
        } else {
            Ok((IpHeader::V6(Ipv6Header::decoded(p)), 40))
        }
    } else {
        Err(DropReason::UnknownIpVersion((p[0] / 16) as u8))
    }
}

/// What the UDP layer makes of the segment `seg` that follows IP header `h`: `Ok` when it is a
/// UDP datagram whose checksum over `h`'s pseudo-header verifies.
pub open spec fn udp_verdict(h: IpHeader, seg: Seq<u8>) -> Result<(), DropReason> {
    if h.protocol_of() != PROTO_UDP {
        Err(DropReason::NotUdp(h.protocol_of()))
    } else if seg.len() < 8 {
        Err(DropReason::Udp(ParseFailure::TooShort))
    } else if !segment_checksum_verifies(seg, h.pseudo_header()) {
        Err(DropReason::Udp(ParseFailure::IncorrectChecksum))
    } else {
        Ok(())
    }
}

/// What the dissection makes of frame `b`: its IP header and the UDP payload, or why it is
/// dropped.
pub open spec fn frame_verdict(b: Seq<u8>) -> Result<(IpHeader, Seq<u8>), DropReason> {
    match link_verdict(b) {
        Err(e) => Err(e),
        Ok(start) => {
            let p = b.subrange(start, b.len() as int);
            match ip_verdict(p) {
                Err(e) => Err(e),
                Ok((h, hl)) => {
                    let seg = p.subrange(hl, p.len() as int);
                    match udp_verdict(h, seg) {
                        Err(e) => Err(e),
                        Ok(_) => Ok((h, seg.subrange(8, seg.len() as int))),
                    }
                },
            }
        },
    }
}

/// Layer 2: the Ethernet header and, when the ethertype signals one, the VLAN tag and the
/// inner Ethernet header. Returns the bytes after them, which must hold IPv4 or IPv6.
pub fn link_layer(frame: &[u8]) -> (r: Result<&[u8], DropReason>)
    ensures
        match link_verdict(frame@) {
            Ok(start) => r matches Ok(rest) && rest@ == frame@.subrange(start, frame@.len() as int),
            Err(e) => r == Err::<&[u8], DropReason>(e),
        },
{
    let (eth, rest) = match EthernetHeader::try_take(frame) {
        PacketDissection::Success { header, rest } => (header, rest),
        other => return Err(DropReason::Ethernet(failure_of(&other))),
    };
    if eth.ethertype == ETHERTYPE_VLAN_TAG {
        let rest = match VlanTagHeader::try_take(rest) {
            PacketDissection::Success { header: _, rest } => rest,
            other => return Err(DropReason::VlanTag(failure_of(&other))),
        };
        let (inner_eth, rest) = match EthernetHeader::try_take(rest) {
            PacketDissection::Success { header, rest } => (header, rest),
            other => return Err(DropReason::InnerEthernet(failure_of(&other))),
        };
        assert(inner_eth.ethertype == be16(frame@, 30));
        if inner_eth.ethertype != ETHERTYPE_IPV4 && inner_eth.ethertype != ETHERTYPE_IPV6 {
            return Err(DropReason::UnknownEthertype(inner_eth.ethertype));
        }
        assert(rest@ =~= frame@.subrange(32, frame@.len() as int));
        Ok(rest)
    } else if eth.ethertype == ETHERTYPE_IPV4 || eth.ethertype == ETHERTYPE_IPV6 {
        Ok(rest)
    } else {
        Err(DropReason::UnknownEthertype(eth.ethertype))
    }
}

/// Layer 3: peeks at the IP version nibble and reads an IPv4 or IPv6 header accordingly.
/// Returns the header and the bytes after it.
pub fn ip_layer(bytes: &[u8]) -> (r: Result<(IpHeader, &[u8]), DropReason>)
    ensures
        match ip_verdict(bytes@) {
            Ok((h, hl)) => r matches Ok((header, rest)) && header == h && rest@ == bytes@.subrange(
                hl,
                bytes@.len() as int,
            ),
            Err(e) => r == Err::<(IpHeader, &[u8]), DropReason>(e),
        },
{
    if bytes.len() < 1 {
        return Err(DropReason::MissingIpHeader);
    }
    let ip_version = bytes[0] / 16;
    if ip_version == 4 {
        match Ipv4Header::try_take(bytes) {
            PacketDissection::Success { header, rest } => {
                proof {
                    Ipv4Header::lemma_read_is_decoded(header, bytes@);
                }
                Ok((IpHeader::V4(header), rest))
            },
            other => Err(DropReason::Ipv4(failure_of(&other))),
        }
    } else if ip_version == 6 {
        if bytes.len() >= 40 {
            proof {
                Ipv6Header::lemma_version_is_high_nibble(bytes@);
            }
        }
        match Ipv6Header::try_take(bytes) {
            PacketDissection::Success { header, rest } => {
                proof {
                    Ipv6Header::lemma_read_is_decoded(header, bytes@);
                }
                Ok((IpHeader::V6(header), rest))
            },
            other => Err(DropReason::Ipv6(failure_of(&other))),
        }
    } else {
        Err(DropReason::UnknownIpVersion(ip_version))
    }
}

/// Layer 4: checks that `ip` carries UDP and reads the UDP header from `bytes` against
/// `ip`'s pseudo-header. Returns the UDP payload.
pub fn udp_layer<'a>(ip: &IpHeader, bytes: &'a [u8]) -> (r: Result<&'a [u8], DropReason>)
    ensures
        match udp_verdict(*ip, bytes@) {
            Ok(_) => r matches Ok(payload) && payload@ == bytes@.subrange(8, bytes@.len() as int),
            Err(e) => r == Err::<&[u8], DropReason>(e),
        },
{
    if ip.inner_protocol() != PROTO_UDP {
        return Err(DropReason::NotUdp(ip.inner_protocol()));
    }
    let (pseudo_header_bytes, pseudo_header_length) = ip.to_pseudo_header();
    let pseudo_header = &pseudo_header_bytes.as_slice()[0..pseudo_header_length];
    match UdpHeader::try_take(bytes, pseudo_header) {
        PacketDissection::Success { header: _, rest } => Ok(rest),
        other => Err(DropReason::Udp(failure_of(&other))),
    }
}

/// Dissects a captured frame down to its UDP payload: Ethernet, optional VLAN unwrap, IPv4 or
/// IPv6, UDP. Returns the IP header and the UDP payload, or the stage that rejected the frame.
pub fn dissect_frame(frame: &[u8]) -> (r: Result<(IpHeader, &[u8]), DropReason>)
    ensures
        match frame_verdict(frame@) {
            Ok((h, payload)) => r matches Ok((header, rest)) && header == h && rest@ == payload,
            Err(e) => r == Err::<(IpHeader, &[u8]), DropReason>(e),
        },
{
    let ip_bytes = link_layer(frame)?;
    let (ip_header, rest) = ip_layer(ip_bytes)?;
    let payload = udp_layer(&ip_header, rest)?;
    Ok((ip_header, payload))
}

/// Counts the questions of `message` for `source`, captured at `timestamp`, when the message
/// is a query; a response changes nothing. Returns how many questions were counted.
pub fn record_message(
    stats: &mut DnsStats,
    timestamp: Timestamp,
    source: IpAddress,
    message: &DnsMessage,
) -> (r: usize)
    requires
        old(stats).wf(),
        old(stats).total_count + message.questions@.len() <= u64::MAX,
    ensures
        final(stats).wf(),
        message.is_query ==> final(stats)@ == with_questions(
            old(stats)@,
            timestamp,
            source,
            message@.1,
        ) && r == message.questions@.len(),
        !message.is_query ==> final(stats)@ == old(stats)@ && r == 0,
{
    // we are interested in query type and name of requests
    if !message.is_query {
        return 0;
    }
    let n = message.questions.len();
    let mut i: usize = 0;
    while i < n
        invariant
            i <= n,
            n == message.questions@.len(),
            message.is_query,
            stats.wf(),
            stats.total_count == old(stats).total_count + i,
            old(stats).total_count + n <= u64::MAX,
            stats@ == with_questions(old(stats)@, timestamp, source, message@.1.subrange(0, i as int)),
        decreases n - i,
    {
        let question = &message.questions[i];
        stats.add_query(timestamp, source, question.record_type, &question.labels);
        assert(message@.1.subrange(0, i + 1).drop_last() =~= message@.1.subrange(0, i as int));
        i = i + 1;
    }
    assert(message@.1.subrange(0, n as int) =~= message@.1);
    n
}

/// Whether processing `packet` on statistics `before` may give result `r` and statistics
/// `after`: a frame that the dissection or the DNS decoder rejects, or whose questions would
/// overflow the counter, leaves the statistics as they were; the questions of a query are
/// counted for the frame's IP source; a response counts nothing.
pub open spec fn frame_outcome(
    before: StatsView,
    packet: &OwnedPacket,
    r: Result<usize, DropReason>,
    after: StatsView,
) -> bool {
    match frame_verdict(packet.data@) {
        Err(e) => r == Err::<usize, DropReason>(e) && after == before,
        Ok((h, payload)) => match dns_decoded(payload) {
            None => r == Err::<usize, DropReason>(DropReason::Dns) && after == before,
            Some((is_query, questions)) => if before.0 + questions.len() > u64::MAX {
                r == Err::<usize, DropReason>(DropReason::CounterFull) && after == before
            } else if is_query {
                r == Ok::<usize, DropReason>(questions.len() as usize) && after == with_questions(
                    before,
                    packet.timestamp,
                    h.source_of(),
                    questions,
                )
            } else {
                r == Ok::<usize, DropReason>(0) && after == before
            },
        },
    }
}

/// The consumer's work on one captured frame: dissect it, decode the UDP payload as DNS, and
/// count the questions of a query from the frame's IP source. Returns how many questions were
/// counted, or why the frame was dropped; a dropped frame leaves the statistics as they were.
pub fn process_frame(stats: &mut DnsStats, packet: &OwnedPacket) -> (r: Result<usize, DropReason>)
    requires
        old(stats).wf(),
    ensures
        final(stats).wf(),
        frame_outcome(old(stats)@, packet, r, final(stats)@),
{
    let (ip_header, payload) = dissect_frame(packet.data.as_slice())?;
    let message = match decode_dns(payload) {
        Some(m) => m,
        None => return Err(DropReason::Dns),
    };
    assert(message.questions@.len() == message@.1.len());
    if stats.total_count > u64::MAX - (message.questions.len() as u64) {
        return Err(DropReason::CounterFull);
    }
    Ok(record_message(stats, packet.timestamp, ip_header.source_address(), &message))
}

/// The consumer of the pipeline: the statistics of the run and the number of frames dropped.
pub struct Consumer {
    stats: DnsStats,
    dropped_frames: u64,
}

impl Consumer {
    #[verifier::type_invariant]
    spec fn inv(self) -> bool {
        self.stats.wf()
    }

    /// The statistics gathered so far.
    pub closed spec fn stats_view(self) -> StatsView {
        self.stats@
    }

    /// The number of frames dropped so far.
    pub closed spec fn dropped_count(self) -> u64 {
        self.dropped_frames
    }

    /// A consumer at the start of a run: nothing counted, nothing dropped.
    pub fn new() -> (r: Self)
        ensures
            r.stats_view() == empty_stats(),
            r.dropped_count() == 0,
    {
        Consumer { stats: DnsStats::new(), dropped_frames: 0 }
    }

    /// Takes one frame from the queue: processes it as `process_frame` does, and counts it as
    /// dropped when it was rejected (the count stops at its maximum). A rejection never ends
    /// the run.
    pub fn consume(&mut self, packet: &OwnedPacket) -> (r: Result<usize, DropReason>)
        ensures
            frame_outcome(old(self).stats_view(), packet, r, final(self).stats_view()),
            r is Ok ==> final(self).dropped_count() == old(self).dropped_count(),
            r is Err ==> final(self).dropped_count() == if old(self).dropped_count() < u64::MAX {
                (old(self).dropped_count() + 1) as u64
            } else {
                u64::MAX
            },
    {
        let mut current = Consumer::new();
        std::mem::swap(self, &mut current);
        proof {
            use_type_invariant(&current);
        }
        let Consumer { mut stats, dropped_frames } = current;
        let r = process_frame(&mut stats, packet);
        let dropped_frames = if r.is_err() {
            dropped_frames.saturating_add(1)
        } else {
            dropped_frames
        };
        *self = Consumer { stats, dropped_frames };
        r
    }

    /// The statistics gathered so far.
    pub fn stats(&self) -> (r: &DnsStats)
        ensures
            r@ == self.stats_view(),
            r.wf(),
    {
        proof {
            use_type_invariant(self);
        }
        &self.stats
    }

    /// The number of frames dropped so far.
    pub fn dropped_frames(&self) -> (r: u64)
        ensures
            r == self.dropped_count(),
    {
        self.dropped_frames
    }

    /// Ends the run, handing out its statistics.
    pub fn into_stats(self) -> (r: DnsStats)
        ensures
            r@ == self.stats_view(),
            r.wf(),
    {
        proof {
            use_type_invariant(&self);
        }
        self.stats
    }
}

/// What one poll of the capture source gave the producer.
#[derive(Clone, Copy, Debug, PartialEq, Eq)]
pub enum PollOutcome {
    /// A frame was read.
    Frame,
    /// No frame became ready within the capture driver's poll interval.
    Timeout,
    /// The capture source failed.
    Failed,
}

/// What the producer does next.
#[derive(Clone, Copy, Debug, PartialEq, Eq)]
pub enum ProducerAction {
    /// Put the frame on the queue (waiting while the queue is full), then poll again.
    Enqueue,
    /// Poll again.
    Retry,
    /// End the capture.
    Stop,
}

/// Whether the producer polls the capture source again: only while the sampling window, of
/// `sample_micros` microseconds, has not run out after `elapsed_micros`.
pub fn capture_window_open(elapsed_micros: u64, sample_micros: u64) -> (r: bool)
    ensures
        r == (elapsed_micros < sample_micros),
{
    elapsed_micros < sample_micros
}

/// What the producer does after a poll: a frame is queued, a timeout is retried rather than
/// treated as an error, and any other capture error ends the capture.
pub fn producer_action(outcome: PollOutcome) -> (r: ProducerAction)
    ensures
        outcome == PollOutcome::Frame ==> r == ProducerAction::Enqueue,
        outcome == PollOutcome::Timeout ==> r == ProducerAction::Retry,
        outcome == PollOutcome::Failed ==> r == ProducerAction::Stop,
{
    match outcome {
        PollOutcome::Frame => ProducerAction::Enqueue,
        PollOutcome::Timeout => ProducerAction::Retry,
        PollOutcome::Failed => ProducerAction::Stop,
    }
}

/// A frame whose outer ethertype is 0x8100 (a VLAN tag follows) is unwrapped: when the inner
/// ethertype is IPv4 its IP bytes are those after the inner Ethernet header, and any inner
/// ethertype other than IPv4 and IPv6 (ARP's 0x0806, say) has the frame rejected.
pub proof fn lemma_vlan_unwrap(b: Seq<u8>)
    requires
        b.len() >= 32,
        be16(b, 12) == ETHERTYPE_VLAN_TAG,
    ensures
        be16(b, 30) == ETHERTYPE_IPV4 ==> link_verdict(b) == Ok::<int, DropReason>(32),
        be16(b, 30) != ETHERTYPE_IPV4 && be16(b, 30) != ETHERTYPE_IPV6 ==> link_verdict(b)
            == Err::<int, DropReason>(DropReason::UnknownEthertype(be16(b, 30))),
{
}

} // verus!
