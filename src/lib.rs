//! Layered dissection of captured network frames (Ethernet, 802.1Q, IPv4/IPv6, TCP/UDP) with
//! Internet-checksum verification, and per-source aggregation of the DNS queries they carry.
pub mod checksum;
pub mod bytes;
pub mod packet;
pub mod ethernet;
pub mod ip;
pub mod tcp_udp;
pub mod dns;
pub mod stats;
pub mod pipeline;
