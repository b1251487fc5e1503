//! The typed request model: the version-blind request header, the
//! per-API request bodies, and the decoders that parse them from a frame's
//! payload bytes.

use vstd::prelude::*;

use crate::api::KafApiKey;
use crate::codec::{lemma_subrange_concat, DecodeFromBytes, EncodeToBytes};
use crate::errors::EncodingError;
use crate::types::{
    encode_compact_array, read_compact_tag_buffer, spec_compact_array_decode,
    spec_compact_array_enc, spec_compact_array_wf, CompactArray, CompactString,
};
use crate::wire::{
    read_i16_be, read_i32_be, read_nullable_string, read_u8_be, spec_i16_be, spec_i32_be,
    spec_nullable_string_enc, spec_nullable_string_wf, spec_read_i16, spec_read_i32,
    spec_read_nullable_string, spec_read_u8, TaggedField, TaggedFieldView,
};

verus! {

/// The view of a request header: plain values and views of its fields.
pub struct KafRequestHeaderView {
    pub request_api_key: i16,
    pub request_api_version: i16,
    pub correlation_id: i32,
    pub client_id: Option<Seq<char>>,
    pub tags: Option<Seq<TaggedFieldView>>,
}

/// A request header. Its shape is version-blind: every request carries two
/// 16-bit integers, a 32-bit correlation id echoed back to the caller, a
/// nullable client id, and a tag buffer.
#[derive(Debug, Clone)]
pub struct KafRequestHeader {
    pub request_api_key: i16,
    pub request_api_version: i16,
    pub correlation_id: i32,
    pub client_id: Option<String>,
    pub tags: Option<Vec<TaggedField>>,
}

impl DeepView for KafRequestHeader {
    type V = KafRequestHeaderView;

    open spec fn deep_view(&self) -> KafRequestHeaderView {
        KafRequestHeaderView {
            request_api_key: self.request_api_key,
            request_api_version: self.request_api_version,
            correlation_id: self.correlation_id,
            client_id: self.client_id.deep_view(),
            tags: self.tags.deep_view(),
        }
    }
}

/// What decoding a request header at `off` yields.
pub open spec fn spec_header_decode(input: Seq<u8>, off: int) -> Result<
    (KafRequestHeaderView, int),
    EncodingError,
> {
    match spec_read_i16(input, off) {
        Err(e) => Err(e),
        Ok((key, o1)) => match spec_read_i16(input, o1) {
            Err(e) => Err(e),
            Ok((ver, o2)) => match spec_read_i32(input, o2) {
                Err(e) => Err(e),
                Ok((cid, o3)) => match spec_read_nullable_string(input, o3) {
                    Err(e) => Err(e),
                    Ok((client, o4)) => match spec_compact_array_decode::<TaggedField>(input, o4) {
                        Err(e) => Err(e),
                        Ok((tags, o5)) => Ok(
                            (
                                KafRequestHeaderView {
                                    request_api_key: key,
                                    request_api_version: ver,
                                    correlation_id: cid,
                                    client_id: client,
                                    tags,
                                },
                                o5,
                            ),
                        ),
                    },
                },
            },
        },
    }
}

/// Whether a header fits the wire format's length fields.
pub open spec fn spec_header_wf(h: KafRequestHeaderView) -> bool {
    spec_nullable_string_wf(h.client_id) && spec_compact_array_wf::<TaggedField>(h.tags)
}

/// The byte layout of a request header.
pub open spec fn spec_header_enc(h: KafRequestHeaderView) -> Seq<u8> {
    spec_i16_be(h.request_api_key) + spec_i16_be(h.request_api_version) + spec_i32_be(
        h.correlation_id,
    ) + spec_nullable_string_enc(h.client_id) + spec_compact_array_enc::<TaggedField>(h.tags)
}

impl DecodeFromBytes for KafRequestHeader {
    open spec fn spec_decode(input: Seq<u8>, off: int) -> Result<
        (KafRequestHeaderView, int),
        EncodingError,
    > {
        spec_header_decode(input, off)
    }

    fn read_from_u8(input: &[u8], offset: &mut usize) -> (r: Result<Self, EncodingError>) {
        let request_api_key = read_i16_be(input, offset)?;
        let request_api_version = read_i16_be(input, offset)?;
        let correlation_id = read_i32_be(input, offset)?;
        let client_id = read_nullable_string(input, offset)?;
        let tags = read_compact_tag_buffer(input, offset)?;
        Ok(
            KafRequestHeader {
                request_api_key,
                request_api_version,
                correlation_id,
                client_id,
                tags,
            },
        )
    }
}

impl EncodeToBytes for KafRequestHeader {
    open spec fn spec_enc_wf(v: KafRequestHeaderView) -> bool {
        spec_header_wf(v)
    }

    open spec fn spec_encode(v: KafRequestHeaderView) -> Seq<u8> {
        spec_header_enc(v)
    }

    fn encode_to_bytes(&self) -> (r: Vec<u8>) {
        let mut out = self.request_api_key.encode_to_bytes();
        let mut ver = self.request_api_version.encode_to_bytes();
        let mut cid = self.correlation_id.encode_to_bytes();
        let mut client = self.client_id.encode_to_bytes();
        let mut tags = encode_compact_array::<TaggedField>(&self.tags);
        out.append(&mut ver);
        out.append(&mut cid);
        out.append(&mut client);
        out.append(&mut tags);
        assert(out@ =~= spec_header_enc(self.deep_view()));
        out
    }
}

/// Round trip: decoding the encoding of any well-formed request header
/// reproduces every field exactly and consumes the whole buffer.
#[verifier::rlimit(60)]
pub proof fn lemma_header_round_trip(h: KafRequestHeaderView)
    requires
        spec_header_wf(h),
    ensures
        spec_header_decode(spec_header_enc(h), 0) == Ok::<
            (KafRequestHeaderView, int),
            EncodingError,
        >((h, spec_header_enc(h).len() as int)),
{
    let a = spec_i16_be(h.request_api_key);
    let b = spec_i16_be(h.request_api_version);
    let c = spec_i32_be(h.correlation_id);
    let d = spec_nullable_string_enc(h.client_id);
    let e = spec_compact_array_enc::<TaggedField>(h.tags);
    let enc = spec_header_enc(h);
    assert(enc =~= a + (b + (c + (d + e))));
    assert(enc.subrange(0, enc.len() as int) =~= enc);
    lemma_subrange_concat(enc, 0, a, b + (c + (d + e)));
    assert(b + (c + (d + e)) =~= b + ((c + (d + e))));
    lemma_subrange_concat(enc, 2, b, c + (d + e));
    lemma_subrange_concat(enc, 4, c, d + e);
    lemma_subrange_concat(enc, 8, d, e);
    assert(enc[0] == enc.subrange(0, 2)[0]);
    assert(enc[1] == enc.subrange(0, 2)[1]);
    crate::wire::lemma_i16_be_round_trip(h.request_api_key);
    assert(enc[2] == enc.subrange(2, 4)[0]);
    assert(enc[3] == enc.subrange(2, 4)[1]);
    crate::wire::lemma_i16_be_round_trip(h.request_api_version);
    assert(enc[4] == enc.subrange(4, 8)[0]);
    assert(enc[5] == enc.subrange(4, 8)[1]);
    assert(enc[6] == enc.subrange(4, 8)[2]);
    assert(enc[7] == enc.subrange(4, 8)[3]);
    crate::wire::lemma_i32_be_round_trip(h.correlation_id);
    crate::wire::lemma_nullable_string_round_trip(enc, 8, h.client_id);
    crate::types::lemma_tag_buffer_round_trip(enc, 8 + d.len() as int, h.tags);
}

/// Every header the decoder yields fits the wire format's length fields,
/// so it can always be re-encoded.
pub proof fn lemma_decoded_header_wf(input: Seq<u8>, off: int)
    requires
        0 <= off,
    ensures
        match spec_header_decode(input, off) {
            Ok((h, end)) => spec_header_wf(h),
            Err(_) => true,
        },
{
    match spec_read_i16(input, off) {
        Err(_) => {},
        Ok((_, o1)) => match spec_read_i16(input, o1) {
            Err(_) => {},
            Ok((_, o2)) => match spec_read_i32(input, o2) {
                Err(_) => {},
                Ok((_, o3)) => {
                    crate::wire::lemma_read_nullable_string_wf(input, o3);
                    match spec_read_nullable_string(input, o3) {
                        Err(_) => {},
                        Ok((_, o4)) => {
                            crate::types::lemma_decoded_tag_buffer_wf(input, o4);
                        },
                    }
                },
            },
        },
    }
}

/// Idempotence of the header codec: encoding a decoded request header and
/// re-decoding yields a structurally identical header, consuming exactly
/// its bytes.
pub proof fn lemma_header_decode_encode_decode(input: Seq<u8>, off: int)
    requires
        0 <= off,
    ensures
        match spec_header_decode(input, off) {
            Ok((h, end)) => spec_header_wf(h) && spec_header_decode(spec_header_enc(h), 0) == Ok::<
                (KafRequestHeaderView, int),
                EncodingError,
            >((h, spec_header_enc(h).len() as int)),
            Err(_) => true,
        },
{
    lemma_decoded_header_wf(input, off);
    match spec_header_decode(input, off) {
        Ok((h, end)) => {
            lemma_header_round_trip(h);
        },
        Err(_) => {},
    }
}

/// The view of one requested topic: its name and its tag byte.
pub struct TopicsEntryView {
    pub name: Seq<char>,
    pub _tagged_fields: u8,
}

/// One topic named by a DescribeTopicPartitions request.
#[derive(Debug, Clone)]
pub struct TopicsEntry {
    pub name: CompactString,
    pub _tagged_fields: u8,
}

impl DeepView for TopicsEntry {
    type V = TopicsEntryView;

    open spec fn deep_view(&self) -> TopicsEntryView {
        TopicsEntryView { name: self.name.deep_view(), _tagged_fields: self._tagged_fields }
    }
}

impl DecodeFromBytes for TopicsEntry {
    open spec fn spec_decode(input: Seq<u8>, off: int) -> Result<
        (TopicsEntryView, int),
        EncodingError,
    > {
        match CompactString::spec_decode(input, off) {
            Err(e) => Err(e),
            Ok((name, o1)) => match spec_read_u8(input, o1) {
                Err(e) => Err(e),
                Ok((t, o2)) => Ok((TopicsEntryView { name, _tagged_fields: t }, o2)),
            },
        }
    }

    fn read_from_u8(input: &[u8], offset: &mut usize) -> (r: Result<Self, EncodingError>) {
        let name = CompactString::read_from_u8(input, offset)?;
        let _tagged_fields = read_u8_be(input, offset)?;
        Ok(TopicsEntry { name, _tagged_fields })
    }
}

/// The view of a DescribeTopicPartitions request body.
pub struct DescribeTopicPartitionsBodyView {
    pub topics: Option<Seq<TopicsEntryView>>,
    pub response_partition_limit: i32,
    pub cursor: u8,
    pub _tagged_fields: u8,
}

/// The body of a DescribeTopicPartitions request: the topics asked about
/// (a compact array, so possibly absent), a partition-count limit, and the
/// cursor and tag bytes, which this broker reads but does not interpret.
#[derive(Debug, Clone)]
pub struct DescribeTopicPartitionsBody {
    pub topics: CompactArray<TopicsEntry>,
    pub response_partition_limit: i32,
    pub cursor: u8,
    pub _tagged_fields: u8,
}

impl DeepView for DescribeTopicPartitionsBody {
    type V = DescribeTopicPartitionsBodyView;

    open spec fn deep_view(&self) -> DescribeTopicPartitionsBodyView {
        DescribeTopicPartitionsBodyView {
            topics: self.topics.deep_view(),
            response_partition_limit: self.response_partition_limit,
            cursor: self.cursor,
            _tagged_fields: self._tagged_fields,
        }
    }
}

impl DecodeFromBytes for DescribeTopicPartitionsBody {
    open spec fn spec_decode(input: Seq<u8>, off: int) -> Result<
        (DescribeTopicPartitionsBodyView, int),
        EncodingError,
    > {
        match spec_compact_array_decode::<TopicsEntry>(input, off) {
            Err(e) => Err(e),
            Ok((topics, o1)) => match spec_read_i32(input, o1) {
                Err(e) => Err(e),
                Ok((limit, o2)) => match spec_read_u8(input, o2) {
                    Err(e) => Err(e),
                    Ok((cursor, o3)) => match spec_read_u8(input, o3) {
                        Err(e) => Err(e),
                        Ok((t, o4)) => Ok(
                            (
                                DescribeTopicPartitionsBodyView {
                                    topics,
                                    response_partition_limit: limit,
                                    cursor,
                                    _tagged_fields: t,
                                },
                                o4,
                            ),
                        ),
                    },
                },
            },
        }
    }

    fn read_from_u8(input: &[u8], offset: &mut usize) -> (r: Result<Self, EncodingError>) {
        let topics = CompactArray::<TopicsEntry>::read_from_u8(input, offset)?;
        let response_partition_limit = read_i32_be(input, offset)?;
        let cursor = read_u8_be(input, offset)?;
        let _tagged_fields = read_u8_be(input, offset)?;
        Ok(DescribeTopicPartitionsBody { topics, response_partition_limit, cursor, _tagged_fields })
    }
}

/// The view of a request body.
pub enum KafRequestBodyView {
    Empty,
    DescribeTopicPartitions(DescribeTopicPartitionsBodyView),
}

/// A request body: one variant per API whose body this broker decodes, and
/// an explicit empty variant for APIs that carry no body fields here —
/// ApiVersions, and any key the broker does not recognise (the dispatcher
/// may still need to answer such a request with an error response).
#[derive(Debug, Clone)]
pub enum KafRequestBody {
    Empty,
    DescribeTopicPartitions(DescribeTopicPartitionsBody),
}

impl DeepView for KafRequestBody {
    type V = KafRequestBodyView;

    open spec fn deep_view(&self) -> KafRequestBodyView {
        match self {
            KafRequestBody::Empty => KafRequestBodyView::Empty,
            KafRequestBody::DescribeTopicPartitions(b) => {
                KafRequestBodyView::DescribeTopicPartitions(b.deep_view())
            },
        }
    }
}

impl KafRequestBody {
    /// What decoding the body for `api_key` at `off` yields: the matching
    /// body for a key with one, the empty body for every other key.
    pub open spec fn spec_decode_for(api_key: i16, input: Seq<u8>, off: int) -> Result<
        (KafRequestBodyView, int),
        EncodingError,
    > {
        if KafApiKey::spec_from_code(api_key) == Some(KafApiKey::DescribeTopicPartitions) {
            match DescribeTopicPartitionsBody::spec_decode(input, off) {
                Err(e) => Err(e),
                Ok((b, o1)) => Ok((KafRequestBodyView::DescribeTopicPartitions(b), o1)),
            }
        } else {
            Ok((KafRequestBodyView::Empty, off))
        }
    }

    /// Decodes the body for `api_key`: a key with no body decoder yields
    /// the explicit empty body rather than an error.
    pub fn decode(api_key: i16, input: &[u8], offset: &mut usize) -> (r: Result<
        Self,
        EncodingError,
    >)
        requires
            *old(offset) <= input@.len(),
        ensures
            *final(offset) <= input@.len(),
            match r {
                Ok(v) => Self::spec_decode_for(api_key, input@, *old(offset) as int) == Ok::<
                    (KafRequestBodyView, int),
                    EncodingError,
                >((v.deep_view(), *final(offset) as int)) && *old(offset) <= *final(offset),
                Err(e) => Self::spec_decode_for(api_key, input@, *old(offset) as int) == Err::<
                    (KafRequestBodyView, int),
                    EncodingError,
                >(e),
            },
    {
        match KafApiKey::from_code(api_key) {
            Some(KafApiKey::DescribeTopicPartitions) => {
                let b = DescribeTopicPartitionsBody::read_from_u8(input, offset)?;
                Ok(KafRequestBody::DescribeTopicPartitions(b))
            },
            _ => Ok(KafRequestBody::Empty),
        }
    }

    /// The DescribeTopicPartitions body this value carries, or the value
    /// itself back when it is some other variant.
    pub fn into_describe_topic_partitions(self) -> (r: Result<
        DescribeTopicPartitionsBody,
        KafRequestBody,
    >)
        ensures
            match self {
                KafRequestBody::DescribeTopicPartitions(b) => r == Ok::<
                    DescribeTopicPartitionsBody,
                    KafRequestBody,
                >(b),
                _ => r == Err::<DescribeTopicPartitionsBody, KafRequestBody>(self),
            },
    {
        match self {
            KafRequestBody::DescribeTopicPartitions(b) => Ok(b),
            other => Err(other),
        }
    }
}

/// The view of a whole request.
pub struct KafRequestView {
    pub header: KafRequestHeaderView,
    pub body: KafRequestBodyView,
}

/// A decoded request: its header, and the body selected by the header's
/// API key.
#[derive(Debug, Clone)]
pub struct KafRequest {
    pub header: KafRequestHeader,
    pub body: KafRequestBody,
}

impl DeepView for KafRequest {
    type V = KafRequestView;

    open spec fn deep_view(&self) -> KafRequestView {
        KafRequestView { header: self.header.deep_view(), body: self.body.deep_view() }
    }
}

impl DecodeFromBytes for KafRequest {
    open spec fn spec_decode(input: Seq<u8>, off: int) -> Result<(KafRequestView, int), EncodingError> {
        match spec_header_decode(input, off) {
            Err(e) => Err(e),
            Ok((h, o1)) => match KafRequestBody::spec_decode_for(h.request_api_key, input, o1) {
                Err(e) => Err(e),
                Ok((b, o2)) => Ok((KafRequestView { header: h, body: b }, o2)),
            },
        }
    }

    fn read_from_u8(input: &[u8], offset: &mut usize) -> (r: Result<Self, EncodingError>) {
        let header = KafRequestHeader::read_from_u8(input, offset)?;
        let body = KafRequestBody::decode(header.request_api_key, input, offset)?;
        Ok(KafRequest { header, body })
    }
}

} // verus!
