use dns_sampler::bytes::{IpAddress, Ipv4Address, Ipv6Address};
use dns_sampler::dns::{DnsMessage, DnsQuestion};
use dns_sampler::packet::Timestamp;
use dns_sampler::pipeline::record_message;
use dns_sampler::stats::{DnsStats, PerSourceStats};

fn labels(name: &str) -> Vec<Vec<u8>> {
    name.split('.').map(|l| l.as_bytes().to_vec()).collect()
}

fn source() -> IpAddress {
    IpAddress::V4(Ipv4Address { octets: [192, 0, 2, 1] })
}

#[test]
fn three_subdomain_queries_and_one_tld() {
    let mut stats = DnsStats::new();
    let ts = Timestamp { seconds: 10, microseconds: 0 };
    stats.add_query(ts, source(), 1, &labels("example.com"));
    stats.add_query(ts, source(), 28, &labels("example.com"));
    stats.add_query(ts, source(), 1, &labels("example.com"));
    stats.add_query(Timestamp { seconds: 11, microseconds: 5 }, source(), 2, &labels("net"));
    assert_eq!(stats.total_count, 4);
    assert_eq!(stats.source_to_stats.len(), 1);
    let per_source = &stats.source_to_stats[0].1;
    assert_eq!(per_source.count, 4);
    assert_eq!(per_source.type_to_count.values().sum::<u64>(), 4);
    assert_eq!(per_source.type_to_count.get(&1), Some(&2));
    assert_eq!(per_source.type_to_count.get(&28), Some(&1));
    assert_eq!(per_source.type_to_count.get(&2), Some(&1));
    assert_eq!(stats.top_level_domains.len(), 1);
    assert_eq!(
        stats.top_level_domains[0],
        (Timestamp { seconds: 11, microseconds: 5 }, source(), 2, "net".to_string())
    );
}

#[test]
fn sources_are_kept_apart() {
    let mut stats = DnsStats::new();
    let ts = Timestamp::default();
    let other = IpAddress::V6(Ipv6Address { octets: [0xfe, 0x80, 0, 0, 0, 0, 0, 0, 0, 0, 0, 0, 0, 0, 0, 1] });
    stats.add_query(ts, source(), 1, &labels("a.example"));
    stats.add_query(ts, other, 1, &labels("b.example"));
    stats.add_query(ts, source(), 15, &labels("c.example"));
    assert_eq!(stats.total_count, 3);
    assert_eq!(stats.source_to_stats.len(), 2);
    assert_eq!(stats.source_to_stats[0].0, source());
    assert_eq!(stats.source_to_stats[0].1.count, 2);
    assert_eq!(stats.source_to_stats[1].0, other);
    assert_eq!(stats.source_to_stats[1].1.count, 1);
    assert!(stats.top_level_domains.is_empty());
}

#[test]
fn non_text_top_level_label_is_logged_lossily() {
    let mut stats = DnsStats::new();
    stats.add_query(Timestamp::default(), source(), 1, &vec![vec![0xFF, 0xFE]]);
    stats.add_query(Timestamp::default(), source(), 1, &vec![vec![b'a', 0xC3, b'z']]);
    assert_eq!(stats.total_count, 2);
    assert_eq!(stats.top_level_domains.len(), 2);
    assert_eq!(stats.top_level_domains[0].3, "\u{FFFD}\u{FFFD}");
    assert_eq!(stats.top_level_domains[1].3, "a\u{FFFD}z");
}

#[test]
fn root_name_is_not_logged() {
    let mut stats = DnsStats::new();
    stats.add_query(Timestamp::default(), source(), 2, &Vec::new());
    assert_eq!(stats.total_count, 1);
    assert!(stats.top_level_domains.is_empty());
}

#[test]
fn new_per_source_stats_is_empty() {
    let s = PerSourceStats::new();
    assert_eq!(s.count, 0);
    assert!(s.type_to_count.is_empty());
}

#[test]
fn record_message_counts_queries_only() {
    let mut stats = DnsStats::new();
    let query = DnsMessage {
        is_query: true,
        questions: vec![
            DnsQuestion { record_type: 1, labels: labels("com") },
            DnsQuestion { record_type: 28, labels: labels("www.example.com") },
        ],
    };
    assert_eq!(record_message(&mut stats, Timestamp::default(), source(), &query), 2);
    assert_eq!(stats.total_count, 2);
    assert_eq!(stats.top_level_domains.len(), 1);
    assert_eq!(stats.top_level_domains[0].3, "com");
    let response = DnsMessage { is_query: false, questions: query.questions.clone() };
    assert_eq!(record_message(&mut stats, Timestamp::default(), source(), &response), 0);
    assert_eq!(stats.total_count, 2);
}
