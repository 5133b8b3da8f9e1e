//! The DNS messages that the statistics consume, as plain values decoded by trust-dns-proto.
use vstd::prelude::*;

use trust_dns_proto::op::{Message, MessageType};
use trust_dns_proto::serialize::binary::BinDecodable;

verus! {

/// One question of a DNS message: the record type asked for and the queried name, as its
/// sequence of raw labels (without the root label).
#[derive(Clone, Debug, PartialEq, Eq)]
pub struct DnsQuestion {
    pub record_type: u16,
    pub labels: Vec<Vec<u8>>,
}

impl View for DnsQuestion {
    type V = (u16, Seq<Seq<u8>>);

    open spec fn view(&self) -> (u16, Seq<Seq<u8>>) {
        (self.record_type, self.labels@.map_values(|l: Vec<u8>| l@))
    }
}

/// A decoded DNS message: whether it is a query, and its questions in message order.
#[derive(Clone, Debug, PartialEq, Eq)]
pub struct DnsMessage {
    pub is_query: bool,
    pub questions: Vec<DnsQuestion>,
}

impl View for DnsMessage {
    type V = (bool, Seq<(u16, Seq<Seq<u8>>)>);

    open spec fn view(&self) -> (bool, Seq<(u16, Seq<Seq<u8>>)>) {
        (self.is_query, self.questions@.map_values(|q: DnsQuestion| q@))
    }
}

/// What trust-dns-proto decodes from a DNS payload: `None` when decoding fails, else whether
/// the message is a query and its questions.
pub uninterp spec fn dns_decoded(payload: Seq<u8>) -> Option<(bool, Seq<(u16, Seq<Seq<u8>>)>)>;

/// Relies on trust_dns_proto's `Message::from_bytes` (with `message_type`, `queries`,
/// `Query::query_type`, `Query::name` and `Name::iter` to read the result): decoding depends on
/// the payload bytes alone.
#[verifier::external_body]
pub(crate) fn decode_dns(payload: &[u8]) -> (r: Option<DnsMessage>)
    ensures
        r matches Some(m) ==> dns_decoded(payload@) == Some(m@),
        r is None ==> dns_decoded(payload@) is None,
{
    let message = Message::from_bytes(payload).ok()?;
    let questions = message.queries().iter().map(|q| DnsQuestion {
        record_type: u16::from(q.query_type()),
        labels: q.name().iter().map(|label| label.to_vec()).collect(),
    }).collect();
    let is_query = matches!(message.message_type(), MessageType::Query);
    Some(DnsMessage { is_query, questions })
}

} // verus!
