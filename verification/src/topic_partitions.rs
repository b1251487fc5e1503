//! The DescribeTopicPartitions response model: per-topic results, the
//! partition entries they may carry, and the constructors the dispatcher
//! uses — one per requested topic, or a single synthetic entry when the
//! request named no topics at all.

use vstd::prelude::*;

use crate::api::{ERROR_INVALID_REQUEST, ERROR_UNKNOWN_TOPIC_OR_PARTITION};
use crate::codec::EncodeToBytes;
use crate::types::{
    encode_compact_array, spec_bool_enc, spec_compact_array_enc, spec_compact_array_wf,
    CompactArray, CompactString,
};
use crate::wire::{spec_i16_be, spec_i32_be};

verus! {

use vstd::utf8::encode_utf8;

/// The authorized-operations bitmask this broker reports for every topic;
/// real authorization is out of scope.
pub const DEFAULT_AUTHORIZED_OPERATIONS: i32 = 0x0df8;

/// The cursor byte meaning "no more pages"; real pagination is out of
/// scope.
pub const NULL_CURSOR: u8 = 0xff;

/// One partition row of a topic result. This broker stores no partitions,
/// so values of this type only fix the byte layout; none is ever built by
/// the dispatcher.
#[derive(Debug, Clone, Copy, PartialEq, Eq, Structural)]
pub struct PartitionsEntry {
    pub error_code: i16,
    pub partition_index: i32,
    pub leader_id: i32,
    pub leader_epoch: i32,
    pub replica_nodes: i32,
    pub isr_nodes: i32,
    pub eligible_leader_replicas: i32,
    pub last_known_elr: i32,
    pub offline_replicas: i32,
    pub _tagged_fields: u8,
}

impl DeepView for PartitionsEntry {
    type V = PartitionsEntry;

    open spec fn deep_view(&self) -> PartitionsEntry {
        *self
    }
}

impl EncodeToBytes for PartitionsEntry {
    open spec fn spec_enc_wf(v: PartitionsEntry) -> bool {
        true
    }

    open spec fn spec_encode(v: PartitionsEntry) -> Seq<u8> {
        spec_i16_be(v.error_code) + spec_i32_be(v.partition_index) + spec_i32_be(v.leader_id)
            + spec_i32_be(v.leader_epoch) + spec_i32_be(v.replica_nodes) + spec_i32_be(v.isr_nodes)
            + spec_i32_be(v.eligible_leader_replicas) + spec_i32_be(v.last_known_elr) + spec_i32_be(
            v.offline_replicas,
        ) + seq![v._tagged_fields]
    }

    fn encode_to_bytes(&self) -> (r: Vec<u8>) {
        let mut out = self.error_code.encode_to_bytes();
        let mut b1 = self.partition_index.encode_to_bytes();
        let mut b2 = self.leader_id.encode_to_bytes();
        let mut b3 = self.leader_epoch.encode_to_bytes();
        let mut b4 = self.replica_nodes.encode_to_bytes();
        let mut b5 = self.isr_nodes.encode_to_bytes();
        let mut b6 = self.eligible_leader_replicas.encode_to_bytes();
        let mut b7 = self.last_known_elr.encode_to_bytes();
        let mut b8 = self.offline_replicas.encode_to_bytes();
        out.append(&mut b1);
        out.append(&mut b2);
        out.append(&mut b3);
        out.append(&mut b4);
        out.append(&mut b5);
        out.append(&mut b6);
        out.append(&mut b7);
        out.append(&mut b8);
        out.push(self._tagged_fields);
        assert(out@ =~= Self::spec_encode(*self));
        out
    }
}

/// The view of one topic result.
pub struct TopicsEntryView {
    pub error_code: i16,
    pub name: Seq<char>,
    pub topic_id: Seq<u8>,
    pub is_internal: bool,
    pub partitions: Option<Seq<PartitionsEntry>>,
    pub topic_authorized_operations: i32,
    pub _tagged_fields: u8,
}

/// One topic of a DescribeTopicPartitions response: the per-topic error
/// code, the echoed name, a 16-byte topic id (all zero when the topic is
/// unknown), and the topic's partitions — always present but empty in this
/// broker, which stores none.
#[derive(Debug, Clone)]
pub struct TopicsEntry {
    pub error_code: i16,
    pub name: CompactString,
    pub topic_id: [u8; 16],
    pub is_internal: bool,
    pub partitions: CompactArray<PartitionsEntry>,
    pub topic_authorized_operations: i32,
    pub _tagged_fields: u8,
}

impl DeepView for TopicsEntry {
    type V = TopicsEntryView;

    open spec fn deep_view(&self) -> TopicsEntryView {
        TopicsEntryView {
            error_code: self.error_code,
            name: self.name.deep_view(),
            topic_id: self.topic_id.deep_view(),
            is_internal: self.is_internal,
            partitions: self.partitions.deep_view(),
            topic_authorized_operations: self.topic_authorized_operations,
            _tagged_fields: self._tagged_fields,
        }
    }
}

impl TopicsEntry {
    /// The result reported for a topic this broker does not know: the
    /// unknown-topic error code, the requested name echoed back, an
    /// all-zero topic id, and an empty (not absent) partition list.
    pub fn unknown_topic(topic_name: String) -> (r: TopicsEntry)
        ensures
            r.deep_view() == (TopicsEntryView {
                error_code: ERROR_UNKNOWN_TOPIC_OR_PARTITION,
                name: topic_name@,
                topic_id: Seq::new(16, |i: int| 0u8),
                is_internal: false,
                partitions: Some(Seq::<PartitionsEntry>::empty()),
                topic_authorized_operations: DEFAULT_AUTHORIZED_OPERATIONS,
                _tagged_fields: 0u8,
            }),
    {
        let empty_parts: Vec<PartitionsEntry> = Vec::new();
        proof {
            assert(empty_parts.deep_view() =~= Seq::<PartitionsEntry>::empty());
        }
        let r = TopicsEntry {
            error_code: ERROR_UNKNOWN_TOPIC_OR_PARTITION,
            name: CompactString(topic_name),
            topic_id: [0u8; 16],
            is_internal: false,
            partitions: CompactArray(Some(empty_parts)),
            topic_authorized_operations: DEFAULT_AUTHORIZED_OPERATIONS,
            _tagged_fields: 0u8,
        };
        assert(r.topic_id.deep_view() =~= Seq::new(16, |i: int| 0u8));
        r
    }
}

impl EncodeToBytes for TopicsEntry {
    open spec fn spec_enc_wf(v: TopicsEntryView) -> bool {
        encode_utf8(v.name).len() + 1 <= 0xffff_ffff && v.topic_id.len() == 16
            && spec_compact_array_wf::<PartitionsEntry>(v.partitions)
    }

    open spec fn spec_encode(v: TopicsEntryView) -> Seq<u8> {
        spec_i16_be(v.error_code) + CompactString::spec_encode(v.name) + v.topic_id + spec_bool_enc(
            v.is_internal,
        ) + spec_compact_array_enc::<PartitionsEntry>(v.partitions) + spec_i32_be(
            v.topic_authorized_operations,
        ) + seq![v._tagged_fields]
    }

    fn encode_to_bytes(&self) -> (r: Vec<u8>) {
        let mut out = self.error_code.encode_to_bytes();
        let mut name = self.name.encode_to_bytes();
        let mut tid = vstd::slice::slice_to_vec(self.topic_id.as_slice());
        let mut internal = self.is_internal.encode_to_bytes();
        let mut parts = encode_compact_array::<PartitionsEntry>(&self.partitions.0);
        let mut ops = self.topic_authorized_operations.encode_to_bytes();
        out.append(&mut name);
        out.append(&mut tid);
        out.append(&mut internal);
        out.append(&mut parts);
        out.append(&mut ops);
        out.push(self._tagged_fields);
        assert(out@ =~= Self::spec_encode(self.deep_view()));
        out
    }
}

/// The view of a DescribeTopicPartitions response body.
pub struct DescribeTopicPartitionsResponseView {
    pub throttle_time: i32,
    pub topics: Option<Seq<TopicsEntryView>>,
    pub next_cursor: u8,
    pub _tagged_fields: u8,
}

/// The body of a DescribeTopicPartitions response: a throttle time, one
/// result per topic, and the cursor byte, fixed at the no-more-pages
/// sentinel since pagination is out of scope.
#[derive(Debug, Clone)]
pub struct DescribeTopicPartitionsResponse {
    pub throttle_time: i32,
    pub topics: CompactArray<TopicsEntry>,
    pub next_cursor: u8,
    pub _tagged_fields: u8,
}

impl DeepView for DescribeTopicPartitionsResponse {
    type V = DescribeTopicPartitionsResponseView;

    open spec fn deep_view(&self) -> DescribeTopicPartitionsResponseView {
        DescribeTopicPartitionsResponseView {
            throttle_time: self.throttle_time,
            topics: self.topics.deep_view(),
            next_cursor: self.next_cursor,
            _tagged_fields: self._tagged_fields,
        }
    }
}

impl DescribeTopicPartitionsResponse {
    /// The response to a request whose topics field was null: a single
    /// synthetic entry carrying the invalid-request error code.
    pub fn bad_request() -> (r: Self)
        ensures
            r.deep_view().throttle_time == 0,
            r.deep_view().next_cursor == NULL_CURSOR,
            r.deep_view()._tagged_fields == 0,
            r.deep_view().topics matches Some(ts) && ts.len() == 1 && ts[0]
                == (TopicsEntryView {
                error_code: ERROR_INVALID_REQUEST,
                name: Seq::<char>::empty(),
                topic_id: Seq::new(16, |i: int| 0u8),
                is_internal: false,
                partitions: Some(Seq::<PartitionsEntry>::empty()),
                topic_authorized_operations: DEFAULT_AUTHORIZED_OPERATIONS,
                _tagged_fields: 0u8,
            }),
    {
        let empty_parts: Vec<PartitionsEntry> = Vec::new();
        proof {
            assert(empty_parts.deep_view() =~= Seq::<PartitionsEntry>::empty());
        }
        let entry = TopicsEntry {
            error_code: ERROR_INVALID_REQUEST,
            name: CompactString(String::new()),
            topic_id: [0u8; 16],
            is_internal: false,
            partitions: CompactArray(Some(empty_parts)),
            topic_authorized_operations: DEFAULT_AUTHORIZED_OPERATIONS,
            _tagged_fields: 0u8,
        };
        proof {
            assert(entry.topic_id.deep_view() =~= Seq::new(16, |i: int| 0u8));
        }
        let mut topics: Vec<TopicsEntry> = Vec::new();
        topics.push(entry);
        let r = DescribeTopicPartitionsResponse {
            throttle_time: 0,
            topics: CompactArray(Some(topics)),
            next_cursor: NULL_CURSOR,
            _tagged_fields: 0u8,
        };
        r
    }

    /// The response listing the given topic results in order.
    pub fn from_topics(topics: Vec<TopicsEntry>) -> (r: Self)
        ensures
            r.deep_view().throttle_time == 0,
            r.deep_view().next_cursor == NULL_CURSOR,
            r.deep_view()._tagged_fields == 0,
            r.deep_view().topics == Some(topics.deep_view()),
    {
        DescribeTopicPartitionsResponse {
            throttle_time: 0,
            topics: CompactArray(Some(topics)),
            next_cursor: NULL_CURSOR,
            _tagged_fields: 0u8,
        }
    }
}

impl EncodeToBytes for DescribeTopicPartitionsResponse {
    open spec fn spec_enc_wf(v: DescribeTopicPartitionsResponseView) -> bool {
        spec_compact_array_wf::<TopicsEntry>(v.topics)
    }

    open spec fn spec_encode(v: DescribeTopicPartitionsResponseView) -> Seq<u8> {
        spec_i32_be(v.throttle_time) + spec_compact_array_enc::<TopicsEntry>(v.topics) + seq![
            v.next_cursor,
            v._tagged_fields,
        ]
    }

    fn encode_to_bytes(&self) -> (r: Vec<u8>) {
        let mut out = self.throttle_time.encode_to_bytes();
        let mut topics = encode_compact_array::<TopicsEntry>(&self.topics.0);
        out.append(&mut topics);
        out.push(self.next_cursor);
        out.push(self._tagged_fields);
        assert(out@ =~= Self::spec_encode(self.deep_view()));
        out
    }
}

} // verus!
