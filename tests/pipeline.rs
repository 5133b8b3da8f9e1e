use dns_sampler::bytes::{IpAddress, Ipv4Address};
use dns_sampler::checksum::internet_checksum;
use dns_sampler::ip::{IpHeader, Ipv4Header, Ipv6Header};
use dns_sampler::packet::{OwnedPacket, PacketDissection, Timestamp};
use dns_sampler::pipeline::{
    capture_window_open, dissect_frame, link_layer, process_frame, producer_action, Consumer,
    DropReason, ParseFailure, PollOutcome, ProducerAction,
};
use dns_sampler::stats::DnsStats;

/// A DNS message with the given flags and one question for `labels`, type A.
fn dns_message(flags: u16, labels: &[&str]) -> Vec<u8> {
    let mut m = vec![0x12, 0x34, (flags >> 8) as u8, (flags & 0xFF) as u8, 0, 1, 0, 0, 0, 0, 0, 0];
    for l in labels {
        m.push(l.len() as u8);
        m.extend_from_slice(l.as_bytes());
    }
    m.extend_from_slice(&[0, 0, 1, 0, 1]);
    m
}

fn ethernet(ethertype: u16) -> Vec<u8> {
    let mut f = vec![0xFF, 0xFF, 0xFF, 0xFF, 0xFF, 0xFF, 0x02, 0x00, 0x00, 0x00, 0x00, 0x01];
    f.push((ethertype >> 8) as u8);
    f.push((ethertype & 0xFF) as u8);
    f
}

/// An IPv4 packet carrying a UDP datagram with `payload`, both checksums correct.
fn ipv4_udp(source: [u8; 4], payload: &[u8]) -> Vec<u8> {
    let udp_len = 8 + payload.len();
    let total = 20 + udp_len;
    let mut ip = vec![
        0x45, 0x00, (total >> 8) as u8, (total & 0xFF) as u8, 0x00, 0x01, 0x00, 0x00, 0x40, 17,
        0x00, 0x00, source[0], source[1], source[2], source[3], 8, 8, 8, 8,
    ];
    let c = internet_checksum(&ip);
    ip[10] = (c >> 8) as u8;
    ip[11] = (c & 0xFF) as u8;
    let header = match Ipv4Header::try_take(&ip) {
        PacketDissection::Success { header, .. } => header,
        other => panic!("unexpected {:?}", other),
    };
    let mut udp = vec![0xC3, 0x50, 0x00, 0x35, (udp_len >> 8) as u8, (udp_len & 0xFF) as u8, 0, 0];
    udp.extend_from_slice(payload);
    let mut all = header.to_pseudo_header().to_vec();
    all.extend_from_slice(&udp);
    let c = internet_checksum(&all);
    udp[6] = (c >> 8) as u8;
    udp[7] = (c & 0xFF) as u8;
    ip.extend_from_slice(&udp);
    ip
}

fn query_frame(source: [u8; 4], labels: &[&str]) -> Vec<u8> {
    let mut f = ethernet(0x0800);
    f.extend_from_slice(&ipv4_udp(source, &dns_message(0x0100, labels)));
    f
}

fn packet(data: Vec<u8>) -> OwnedPacket {
    OwnedPacket { timestamp: Timestamp { seconds: 1_700_000_000, microseconds: 250 }, data }
}

#[test]
fn query_frame_is_counted() {
    let mut stats = DnsStats::new();
    let r = process_frame(&mut stats, &packet(query_frame([10, 0, 0, 7], &["net"])));
    assert_eq!(r, Ok(1));
    assert_eq!(stats.total_count, 1);
    assert_eq!(stats.source_to_stats.len(), 1);
    assert_eq!(stats.source_to_stats[0].0, IpAddress::V4(Ipv4Address { octets: [10, 0, 0, 7] }));
    assert_eq!(stats.source_to_stats[0].1.type_to_count.get(&1), Some(&1));
    assert_eq!(stats.top_level_domains.len(), 1);
    let (ts, source, record_type, label) = &stats.top_level_domains[0];
    assert_eq!(*ts, Timestamp { seconds: 1_700_000_000, microseconds: 250 });
    assert_eq!(*source, IpAddress::V4(Ipv4Address { octets: [10, 0, 0, 7] }));
    assert_eq!(*record_type, 1);
    assert_eq!(label, "net");
}

#[test]
fn response_frame_counts_nothing() {
    let mut stats = DnsStats::new();
    let mut f = ethernet(0x0800);
    f.extend_from_slice(&ipv4_udp([10, 0, 0, 7], &dns_message(0x8180, &["example", "com"])));
    assert_eq!(process_frame(&mut stats, &packet(f)), Ok(0));
    assert_eq!(stats.total_count, 0);
    assert!(stats.source_to_stats.is_empty());
}

#[test]
fn undecodable_dns_is_dropped() {
    let mut stats = DnsStats::new();
    let mut f = ethernet(0x0800);
    f.extend_from_slice(&ipv4_udp([10, 0, 0, 7], &[0x12, 0x34, 0x01]));
    assert_eq!(process_frame(&mut stats, &packet(f)), Err(DropReason::Dns));
    assert_eq!(stats.total_count, 0);
}

#[test]
fn vlan_tagged_ipv4_is_unwrapped() {
    let mut f = ethernet(0x8100);
    f.extend_from_slice(&[0x20, 0x05, 0x08, 0x00]);
    f.extend_from_slice(&ethernet(0x0800));
    let inner = ipv4_udp([10, 0, 0, 9], &dns_message(0x0100, &["org"]));
    f.extend_from_slice(&inner);
    assert_eq!(link_layer(&f).unwrap(), &inner[..]);
    match dissect_frame(&f) {
        Ok((IpHeader::V4(h), payload)) => {
            assert_eq!(h.source_address, Ipv4Address { octets: [10, 0, 0, 9] });
            assert_eq!(payload, &inner[28..]);
        },
        other => panic!("unexpected {:?}", other),
    }
}

#[test]
fn vlan_tagged_arp_is_rejected() {
    let mut f = ethernet(0x8100);
    f.extend_from_slice(&[0x20, 0x05, 0x08, 0x06]);
    f.extend_from_slice(&ethernet(0x0806));
    f.extend_from_slice(&[0u8; 28]);
    assert_eq!(link_layer(&f), Err(DropReason::UnknownEthertype(0x0806)));
    assert_eq!(dissect_frame(&f).unwrap_err(), DropReason::UnknownEthertype(0x0806));
}

#[test]
fn every_drop_reason_has_a_frame() {
    let good = query_frame([10, 0, 0, 7], &["net"]);
    assert_eq!(dissect_frame(&good[0..10]).unwrap_err(), DropReason::Ethernet(ParseFailure::TooShort));

    let mut vlan = ethernet(0x8100);
    vlan.extend_from_slice(&[0x00, 0x01]);
    assert_eq!(dissect_frame(&vlan).unwrap_err(), DropReason::VlanTag(ParseFailure::TooShort));
    vlan.extend_from_slice(&[0x08, 0x00, 1, 2, 3]);
    assert_eq!(dissect_frame(&vlan).unwrap_err(), DropReason::InnerEthernet(ParseFailure::TooShort));

    assert_eq!(dissect_frame(&ethernet(0x88CC)).unwrap_err(), DropReason::UnknownEthertype(0x88CC));
    assert_eq!(dissect_frame(&ethernet(0x0800)).unwrap_err(), DropReason::MissingIpHeader);

    let mut v5 = good.clone();
    v5[14] = 0x55;
    assert_eq!(dissect_frame(&v5).unwrap_err(), DropReason::UnknownIpVersion(5));

    assert_eq!(dissect_frame(&good[0..30]).unwrap_err(), DropReason::Ipv4(ParseFailure::TooShort));
    let mut bad_ip = good.clone();
    bad_ip[22] ^= 0x01;
    assert_eq!(dissect_frame(&bad_ip).unwrap_err(), DropReason::Ipv4(ParseFailure::IncorrectChecksum));

    let mut v6 = ethernet(0x86DD);
    v6.extend_from_slice(&[0x60, 0, 0, 0]);
    assert_eq!(dissect_frame(&v6).unwrap_err(), DropReason::Ipv6(ParseFailure::TooShort));

    let mut tcp = ethernet(0x0800);
    let mut ip = vec![0x45, 0, 0, 20, 0, 0, 0, 0, 64, 6, 0, 0, 1, 1, 1, 1, 2, 2, 2, 2];
    let c = internet_checksum(&ip);
    ip[10] = (c >> 8) as u8;
    ip[11] = (c & 0xFF) as u8;
    tcp.extend_from_slice(&ip);
    assert_eq!(dissect_frame(&tcp).unwrap_err(), DropReason::NotUdp(6));

    assert_eq!(dissect_frame(&good[0..40]).unwrap_err(), DropReason::Udp(ParseFailure::TooShort));
    let mut bad_udp = good.clone();
    let last = bad_udp.len() - 1;
    bad_udp[last] ^= 0x80;
    assert_eq!(dissect_frame(&bad_udp).unwrap_err(), DropReason::Udp(ParseFailure::IncorrectChecksum));

    let mut stats = DnsStats::new();
    stats.total_count = u64::MAX;
    assert_eq!(process_frame(&mut stats, &packet(good)), Err(DropReason::CounterFull));
    assert_eq!(stats.total_count, u64::MAX);
}

#[test]
fn ipv6_udp_frame_is_dissected() {
    let payload = dns_message(0x0100, &["io"]);
    let udp_len = 8 + payload.len();
    // this design's IPv6 pseudo-header announces payload length less 40
    let payload_length = (udp_len + 40) as u16;
    let mut ip = vec![0x60, 0, 0, 0, (payload_length >> 8) as u8, (payload_length & 0xFF) as u8, 17, 64];
    ip.extend_from_slice(&[0x20, 0x01, 0x0d, 0xb8, 0, 0, 0, 0, 0, 0, 0, 0, 0, 0, 0, 1]);
    ip.extend_from_slice(&[0x20, 0x01, 0x0d, 0xb8, 0, 0, 0, 0, 0, 0, 0, 0, 0, 0, 0, 2]);
    let header = match Ipv6Header::try_take(&ip) {
        PacketDissection::Success { header, .. } => header,
        other => panic!("unexpected {:?}", other),
    };
    let mut udp = vec![0xC3, 0x50, 0x00, 0x35, (udp_len >> 8) as u8, (udp_len & 0xFF) as u8, 0, 0];
    udp.extend_from_slice(&payload);
    let mut all = header.to_pseudo_header().to_vec();
    all.extend_from_slice(&udp);
    let c = internet_checksum(&all);
    udp[6] = (c >> 8) as u8;
    udp[7] = (c & 0xFF) as u8;
    let mut f = ethernet(0x86DD);
    f.extend_from_slice(&ip);
    f.extend_from_slice(&udp);
    let mut stats = DnsStats::new();
    assert_eq!(process_frame(&mut stats, &packet(f)), Ok(1));
    assert!(matches!(stats.source_to_stats[0].0, IpAddress::V6(a) if a.octets[15] == 1));
    assert_eq!(stats.top_level_domains[0].3, "io");
}

#[test]
fn consumer_counts_drops_and_keeps_going() {
    let mut consumer = Consumer::new();
    assert_eq!(consumer.consume(&packet(vec![1, 2, 3])), Err(DropReason::Ethernet(ParseFailure::TooShort)));
    assert_eq!(consumer.consume(&packet(query_frame([10, 0, 0, 7], &["net"]))), Ok(1));
    assert_eq!(consumer.consume(&packet(ethernet(0x0806))), Err(DropReason::UnknownEthertype(0x0806)));
    assert_eq!(consumer.dropped_frames(), 2);
    assert_eq!(consumer.stats().total_count, 1);
    assert_eq!(consumer.into_stats().source_to_stats.len(), 1);
}

#[test]
fn producer_decisions() {
    assert!(!capture_window_open(0, 0));
    assert!(capture_window_open(999_999, 1_000_000));
    assert!(!capture_window_open(1_000_000, 1_000_000));
    assert_eq!(producer_action(PollOutcome::Frame), ProducerAction::Enqueue);
    assert_eq!(producer_action(PollOutcome::Timeout), ProducerAction::Retry);
    assert_eq!(producer_action(PollOutcome::Failed), ProducerAction::Stop);
}
