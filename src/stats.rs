//! Per-source DNS query statistics, accumulated over one sampling run.
use std::collections::HashMap;

use vstd::prelude::*;
use vstd::utf8::{decode_utf8, valid_utf8};

use crate::bytes::IpAddress;
use crate::packet::Timestamp;

verus! {

broadcast use vstd::std_specs::hash::group_hash_axioms;

/// The counts for one source address.
#[derive(Clone, Debug, Default, Eq, PartialEq)]
pub struct PerSourceStats {
    /// Queries seen from this source.
    pub count: u64,
    /// Queries seen from this source, by record type.
    pub type_to_count: HashMap<u16, u64>,
}

impl PerSourceStats {
    /// Counts for a source before its first query.
    pub fn new() -> (r: Self)
        ensures
            r.count == 0,
            r.type_to_count@ == Map::<u16, u64>::empty(),
    {
        PerSourceStats { count: 0, type_to_count: HashMap::new() }
    }

    /// Every per-type count is at most the source's count.
    pub open spec fn wf(self) -> bool {
        forall|t: u16| #[trigger]
            self.type_to_count@.contains_key(t) ==> self.type_to_count@[t] <= self.count
    }
}

/// `m` with the count for `t` raised by one (from zero when absent).
pub open spec fn bump(m: Map<u16, u64>, t: u16) -> Map<u16, u64> {
    m.insert(
        t,
        if m.contains_key(t) {
            (m[t] + 1) as u64
        } else {
            1u64
        },
    )
}

/// The abstract contents of the statistics: the total count; per source, in order of first
/// appearance, its count and its counts by record type; and the top-level-domain log.
pub type StatsView = (
    nat,
    Seq<(IpAddress, u64, Map<u16, u64>)>,
    Seq<(Timestamp, IpAddress, u16, Seq<char>)>,
);

/// Statistics with nothing counted.
pub open spec fn empty_stats() -> StatsView {
    (0nat, Seq::empty(), Seq::empty())
}

/// Whether `source` has an entry among `sources`.
pub open spec fn has_source(sources: Seq<(IpAddress, u64, Map<u16, u64>)>, source: IpAddress) -> bool {
    exists|i: int| 0 <= i < sources.len() && #[trigger] sources[i].0 == source
}

/// The position of `source` among `sources`, when it has one.
pub open spec fn source_index(sources: Seq<(IpAddress, u64, Map<u16, u64>)>, source: IpAddress) -> int {
    choose|i: int| 0 <= i < sources.len() && #[trigger] sources[i].0 == source
}

/// `sources` with one more query of type `t` counted for `source`: its entry updated in
/// place, or a new entry appended when it has none.
pub open spec fn count_query(
    sources: Seq<(IpAddress, u64, Map<u16, u64>)>,
    source: IpAddress,
    t: u16,
) -> Seq<(IpAddress, u64, Map<u16, u64>)> {
    if has_source(sources, source) {
        let i = source_index(sources, source);
        sources.update(i, (source, (sources[i].1 + 1) as u64, bump(sources[i].2, t)))
    } else {
        sources.push((source, 1u64, map![t => 1u64]))
    }
}

/// Whether a query name (its labels) is a bare top-level domain, and so enters the
/// top-level-domain log.
pub open spec fn logs_name(labels: Seq<Seq<u8>>) -> bool {
    labels.len() == 1
}

/// What `String::from_utf8_lossy` makes of `b`: its characters, with each invalid sequence
/// replaced by U+FFFD.
pub uninterp spec fn lossy_text(b: Seq<u8>) -> Seq<char>;

/// The text that the log holds for a label: its characters when it is valid UTF-8, else its
/// lossy decoding.
pub open spec fn label_text(label: Seq<u8>) -> Seq<char> {
    if valid_utf8(label) {
        decode_utf8(label)
    } else {
        lossy_text(label)
    }
}

/// The statistics after one more query of type `t` for the name `labels` from `source`,
/// captured at `ts`.
pub open spec fn with_query(
    v: StatsView,
    ts: Timestamp,
    source: IpAddress,
    t: u16,
    labels: Seq<Seq<u8>>,
) -> StatsView {
    (
        v.0 + 1,
        count_query(v.1, source, t),
        if logs_name(labels) {
            v.2.push((ts, source, t, label_text(labels[0])))
        } else {
            v.2
        },
    )
}

/// The statistics after the queries `questions` (record type and name labels), in order,
/// all from `source` and captured at `ts`.
pub open spec fn with_questions(
    v: StatsView,
    ts: Timestamp,
    source: IpAddress,
    questions: Seq<(u16, Seq<Seq<u8>>)>,
) -> StatsView
    decreases questions.len(),
{
    if questions.len() == 0 {
        v
    } else {
        let last = questions.last();
        with_query(with_questions(v, ts, source, questions.drop_last()), ts, source, last.0, last.1)
    }
}

/// The statistics of one sampling run.
#[derive(Clone, Debug, Default, Eq, PartialEq)]
pub struct DnsStats {
    /// Queries seen in all.
    pub total_count: u64,
    /// The counts of each source that sent a query, one entry per source, in order of first
    /// appearance.
    pub source_to_stats: Vec<(IpAddress, PerSourceStats)>,
    /// Every query for a bare top-level domain (a name of exactly one label), in order:
    /// capture time, source, record type and the label as text (lossily decoded when it is not
    /// valid UTF-8).
    pub top_level_domains: Vec<(Timestamp, IpAddress, u16, String)>,
}

/// Relies on `String::from_utf8_lossy`: the text depends on the bytes alone, and valid UTF-8
/// comes out as the characters it encodes.
#[verifier::external_body]
fn lossy_string(bytes: &[u8]) -> (r: String)
    ensures
        r@ == lossy_text(bytes@),
        valid_utf8(bytes@) ==> r@ == decode_utf8(bytes@),
{
    String::from_utf8_lossy(bytes).into_owned()
}

impl View for DnsStats {
    type V = StatsView;

    open spec fn view(&self) -> StatsView {
        (
            self.total_count as nat,
            self.source_to_stats@.map_values(
                |e: (IpAddress, PerSourceStats)| (e.0, e.1.count, e.1.type_to_count@),
            ),
            self.top_level_domains@.map_values(
                |l: (Timestamp, IpAddress, u16, String)| (l.0, l.1, l.2, l.3@),
            ),
        )
    }
}

impl DnsStats {
    /// Statistics with nothing counted yet.
    pub fn new() -> (r: Self)
        ensures
            r@ == empty_stats(),
            r.wf(),
    {
        let r = DnsStats {
            total_count: 0,
            source_to_stats: Vec::new(),
            top_level_domains: Vec::new(),
        };
        assert(r@.1 =~= Seq::<(IpAddress, u64, Map<u16, u64>)>::empty());
        assert(r@.2 =~= Seq::<(Timestamp, IpAddress, u16, Seq<char>)>::empty());
        r
    }

    /// Each source has one entry, and no count exceeds the one above it.
    pub open spec fn wf(self) -> bool {
        let entries = self.source_to_stats@;
        &&& forall|i: int, j: int|
            0 <= i < entries.len() && 0 <= j < entries.len() && i != j ==> #[trigger] entries[i].0
                != #[trigger] entries[j].0
        &&& forall|i: int|
            0 <= i < entries.len() ==> #[trigger] entries[i].1.count <= self.total_count
                && entries[i].1.wf()
    }

    /// Counts one query of type `record_type` for `name` (its labels) from `source`, and logs
    /// it when the name is a single label.
    pub fn add_query(
        &mut self,
        timestamp: Timestamp,
        source: IpAddress,
        record_type: u16,
        name: &Vec<Vec<u8>>,
    )
        requires
            old(self).wf(),
            old(self).total_count < u64::MAX,
        ensures
            final(self).wf(),
            final(self)@ == with_query(
                old(self)@,
                timestamp,
                source,
                record_type,
                name@.map_values(|l: Vec<u8>| l@),
            ),
    {
        self.total_count = self.total_count + 1;

        // find the source's entry
        let len = self.source_to_stats.len();
        let mut i: usize = 0;
        while i < len
            invariant_except_break
                i <= len,
            invariant
                len == self.source_to_stats@.len(),
                forall|j: int| 0 <= j < i ==> self.source_to_stats@[j].0 != source,
            ensures
                i <= len,
                i < len ==> self.source_to_stats@[i as int].0 == source,
            decreases len - i,
        {
            if self.source_to_stats[i].0.same_as(&source) {
                break;
            }
            i = i + 1;
        }

        let ghost before = self@;
        if i < len {
            let entry = &self.source_to_stats[i];
            assert(before.1[i as int].0 == source);
            assert(has_source(before.1, source));
            assert(source_index(before.1, source) == i) by {
                let k = source_index(before.1, source);
                assert(self.source_to_stats@[k].0 == source);
            }
            assert(entry.1.count <= old(self).total_count && entry.1.wf());
            let mut type_to_count = entry.1.type_to_count.clone();
            let per_type_count: u64 = match type_to_count.get(&record_type) {
                Some(c) => {
                    assert(type_to_count@.contains_key(record_type));
                    *c
                },
                None => 0,
            };
            type_to_count.insert(record_type, per_type_count + 1);
            let updated = PerSourceStats { count: entry.1.count + 1, type_to_count };
            self.source_to_stats.set(i, (source, updated));
            assert(self@.1 =~= count_query(before.1, source, record_type));
        } else {
            assert(!has_source(before.1, source));
            let mut type_to_count: HashMap<u16, u64> = HashMap::new();
            type_to_count.insert(record_type, 1);
            let fresh = PerSourceStats { count: 1, type_to_count };
            self.source_to_stats.push((source, fresh));
            assert(self@.1 =~= count_query(before.1, source, record_type));
        }

        let ghost labels = name@.map_values(|l: Vec<u8>| l@);
        let ghost logged = self@.2;
        assert(logged == before.2);
        if name.len() == 1 {
            assert(labels[0] == name@[0]@);
            // it's a top-level domain
            let tld = lossy_string(name[0].as_slice());
            self.top_level_domains.push((timestamp, source, record_type, tld));
            assert(self@.2 =~= logged.push((timestamp, source, record_type, label_text(labels[0]))));
        }
    }
}

} // verus!
