//! The typed response model: the two response-header shapes, the per-API
//! response bodies, and the frame encoder that prefixes the encoded header
//! and body with their big-endian byte length.

use bincode::Options;
use vstd::prelude::*;

use crate::api::{ApiVersionEntry, ERROR_NONE};
use crate::codec::EncodeToBytes;
use crate::errors::EncodingError;
use crate::request::KafRequestHeader;
use crate::topic_partitions::{DescribeTopicPartitionsResponse, DescribeTopicPartitionsResponseView};
use crate::types::{encode_compact_array, spec_compact_array_enc, spec_compact_array_wf, CompactArray};
use crate::wire::{spec_i16_be, spec_i32_be};

verus! {

/// A bare response shell: a message size and a header holding only the
/// correlation id. It serves the fixed-size response path.
#[derive(Debug, Clone, Copy, PartialEq, Eq, Structural)]
pub struct Header {
    pub correlation_id: i32,
}

/// A fixed-size response: its total message size and its bare header.
#[derive(Debug, Clone, Copy, PartialEq, Eq, Structural)]
pub struct Response {
    pub message_size: i32,
    pub header: Header,
}

/// Relies on bincode's `Options::serialize` with fixed-width integer
/// encoding and big-endian byte order: a two-element i32 array serializes
/// as the two integers' big-endian bytes, and writing them into a fresh
/// `Vec` cannot fail.
#[verifier::external_body]
fn serialize_two_i32_be(a: i32, b: i32) -> (r: Vec<u8>)
    ensures
        r@ == spec_i32_be(a) + spec_i32_be(b),
{
    let opts = bincode::DefaultOptions::new().with_fixint_encoding().with_big_endian();
    match opts.serialize(&[a, b]) {
        Ok(v) => v,
        Err(_) => Vec::new(),
    }
}

impl Response {
    /// A response with the given size and correlation id.
    pub fn new(message_size: i32, correlation_id: i32) -> (r: Response)
        ensures
            r == (Response { message_size, header: Header { correlation_id } }),
    {
        Response { message_size, header: Header { correlation_id } }
    }

    /// The response's wire bytes: its two integers, big-endian, in order.
    pub fn to_vec(&self) -> (r: Vec<u8>)
        ensures
            r@ == spec_i32_be(self.message_size) + spec_i32_be(self.header.correlation_id),
    {
        serialize_two_i32_be(self.message_size, self.header.correlation_id)
    }
}

/// The plain response header: only the echoed correlation id.
#[derive(Debug, Clone, Copy, PartialEq, Eq, Structural)]
pub struct V0Header {
    pub correlation_id: i32,
}

/// The flexible response header: the echoed correlation id and a
/// tagged-field byte.
#[derive(Debug, Clone, Copy, PartialEq, Eq, Structural)]
pub struct V1Header {
    pub correlation_id: i32,
    pub _tagged_fields: u8,
}

/// A response header in one of its two wire shapes. Which shape a response
/// uses is a function of the request's declared API version, never of the
/// response body.
#[derive(Debug, Clone, Copy, PartialEq, Eq, Structural)]
pub enum KafResponseHeader {
    V0(V0Header),
    V1(V1Header),
}

impl DeepView for KafResponseHeader {
    type V = KafResponseHeader;

    open spec fn deep_view(&self) -> KafResponseHeader {
        *self
    }
}

/// The byte layout of a response header: the correlation id, and in the
/// flexible shape a tagged-field byte after it.
pub open spec fn spec_response_header_enc(h: KafResponseHeader) -> Seq<u8> {
    match h {
        KafResponseHeader::V0(inner) => spec_i32_be(inner.correlation_id),
        KafResponseHeader::V1(inner) => spec_i32_be(inner.correlation_id) + seq![
            inner._tagged_fields,
        ],
    }
}

/// The response-header shape a request's declared API version selects:
/// the plain shape for version 0, the flexible shape otherwise.
pub open spec fn spec_header_for_version(version: i16, correlation_id: i32) -> KafResponseHeader {
    if version == 0 {
        KafResponseHeader::V0(V0Header { correlation_id })
    } else {
        KafResponseHeader::V1(V1Header { correlation_id, _tagged_fields: 0u8 })
    }
}

impl KafResponseHeader {
    /// The plain header echoing the request's correlation id.
    pub fn v0(request_header: KafRequestHeader) -> (r: KafResponseHeader)
        ensures
            r == KafResponseHeader::V0(
                V0Header { correlation_id: request_header.correlation_id },
            ),
    {
        KafResponseHeader::V0(V0Header { correlation_id: request_header.correlation_id })
    }

    /// The flexible header echoing the request's correlation id, with an
    /// empty tag buffer.
    pub fn v1(request_header: KafRequestHeader) -> (r: KafResponseHeader)
        ensures
            r == KafResponseHeader::V1(
                V1Header { correlation_id: request_header.correlation_id, _tagged_fields: 0u8 },
            ),
    {
        KafResponseHeader::V1(
            V1Header { correlation_id: request_header.correlation_id, _tagged_fields: 0u8 },
        )
    }

    /// The header shape the request's declared API version selects.
    pub fn from_request_header(request_header: KafRequestHeader) -> (r: KafResponseHeader)
        ensures
            r == spec_header_for_version(
                request_header.request_api_version,
                request_header.correlation_id,
            ),
    {
        match request_header.request_api_version {
            0 => KafResponseHeader::V0(
                V0Header { correlation_id: request_header.correlation_id },
            ),
            _ => KafResponseHeader::V1(
                V1Header { correlation_id: request_header.correlation_id, _tagged_fields: 0u8 },
            ),
        }
    }
}

impl Default for KafResponseHeader {
    /// The default header is the plain shape with correlation id zero.
    fn default() -> (r: Self)
        ensures
            r == KafResponseHeader::V0(V0Header { correlation_id: 0i32 }),
    {
        KafResponseHeader::V0(V0Header { correlation_id: 0 })
    }
}

impl EncodeToBytes for KafResponseHeader {
    open spec fn spec_enc_wf(v: KafResponseHeader) -> bool {
        true
    }

    open spec fn spec_encode(v: KafResponseHeader) -> Seq<u8> {
        spec_response_header_enc(v)
    }

    fn encode_to_bytes(&self) -> (r: Vec<u8>) {
        match self {
            KafResponseHeader::V0(inner) => {
                let out = inner.correlation_id.encode_to_bytes();
                assert(out@ =~= spec_response_header_enc(*self));
                out
            },
            KafResponseHeader::V1(inner) => {
                let mut out = inner.correlation_id.encode_to_bytes();
                out.push(inner._tagged_fields);
                assert(out@ =~= spec_response_header_enc(*self));
                out
            },
        }
    }
}

/// The body of a response to an API this broker does not serve: one error
/// code and nothing else.
#[derive(Debug, Clone, Copy, PartialEq, Eq, Structural)]
pub struct UnsupportedResponse {
    pub error_code: i16,
}

impl DeepView for UnsupportedResponse {
    type V = UnsupportedResponse;

    open spec fn deep_view(&self) -> UnsupportedResponse {
        *self
    }
}

impl UnsupportedResponse {
    /// The body carrying the given error code.
    pub fn with_error_code(ec: i16) -> (r: UnsupportedResponse)
        ensures
            r == (UnsupportedResponse { error_code: ec }),
    {
        UnsupportedResponse { error_code: ec }
    }
}

impl EncodeToBytes for UnsupportedResponse {
    open spec fn spec_enc_wf(v: UnsupportedResponse) -> bool {
        true
    }

    open spec fn spec_encode(v: UnsupportedResponse) -> Seq<u8> {
        spec_i16_be(v.error_code)
    }

    fn encode_to_bytes(&self) -> (r: Vec<u8>) {
        self.error_code.encode_to_bytes()
    }
}

/// The view of an ApiVersions response body.
pub struct ApiVersionsResponseView {
    pub error_code: i16,
    pub api_keys: Option<Seq<ApiVersionEntry>>,
    pub throttle_time: i32,
    pub tagged_buffer: u8,
}

/// The body of an ApiVersions response: an error code, the list of
/// supported APIs with their version ranges, a throttle time, and a
/// tagged-field byte.
#[derive(Debug, Clone)]
pub struct ApiVersionsResponse {
    pub error_code: i16,
    pub api_keys: CompactArray<ApiVersionEntry>,
    pub throttle_time: i32,
    pub tagged_buffer: u8,
}

impl DeepView for ApiVersionsResponse {
    type V = ApiVersionsResponseView;

    open spec fn deep_view(&self) -> ApiVersionsResponseView {
        ApiVersionsResponseView {
            error_code: self.error_code,
            api_keys: self.api_keys.deep_view(),
            throttle_time: self.throttle_time,
            tagged_buffer: self.tagged_buffer,
        }
    }
}

impl ApiVersionsResponse {
    /// The successful body listing the given entries.
    pub fn new(api_keys: CompactArray<ApiVersionEntry>) -> (r: ApiVersionsResponse)
        ensures
            r.deep_view() == (ApiVersionsResponseView {
                error_code: ERROR_NONE,
                api_keys: api_keys.deep_view(),
                throttle_time: 0i32,
                tagged_buffer: 0u8,
            }),
    {
        ApiVersionsResponse { error_code: ERROR_NONE, api_keys, throttle_time: 0, tagged_buffer: 0 }
    }

    /// The failing body carrying the given error code and no entries.
    pub fn with_error_code(error_code: i16) -> (r: ApiVersionsResponse)
        ensures
            r.deep_view() == (ApiVersionsResponseView {
                error_code,
                api_keys: None,
                throttle_time: 0i32,
                tagged_buffer: 0u8,
            }),
    {
        ApiVersionsResponse {
            error_code,
            api_keys: CompactArray(None),
            throttle_time: 0,
            tagged_buffer: 0,
        }
    }
}

impl EncodeToBytes for ApiVersionsResponse {
    open spec fn spec_enc_wf(v: ApiVersionsResponseView) -> bool {
        spec_compact_array_wf::<ApiVersionEntry>(v.api_keys)
    }

    open spec fn spec_encode(v: ApiVersionsResponseView) -> Seq<u8> {
        spec_i16_be(v.error_code) + spec_compact_array_enc::<ApiVersionEntry>(v.api_keys)
            + spec_i32_be(v.throttle_time) + seq![v.tagged_buffer]
    }

    fn encode_to_bytes(&self) -> (r: Vec<u8>) {
        let mut out = self.error_code.encode_to_bytes();
        let mut keys = encode_compact_array::<ApiVersionEntry>(&self.api_keys.0);
        let mut throttle = self.throttle_time.encode_to_bytes();
        out.append(&mut keys);
        out.append(&mut throttle);
        out.push(self.tagged_buffer);
        assert(out@ =~= Self::spec_encode(self.deep_view()));
        out
    }
}

/// The view of a response body.
pub enum KafResponseBodyView {
    Unsupported(UnsupportedResponse),
    ApiVersions(ApiVersionsResponseView),
    DescribeTopicPartitions(DescribeTopicPartitionsResponseView),
}

/// A response body: one variant per API this broker answers, and the
/// generic unsupported body.
#[derive(Debug, Clone)]
pub enum KafResponseBody {
    Unsupported(UnsupportedResponse),
    ApiVersions(ApiVersionsResponse),
    DescribeTopicPartitions(DescribeTopicPartitionsResponse),
}

impl DeepView for KafResponseBody {
    type V = KafResponseBodyView;

    open spec fn deep_view(&self) -> KafResponseBodyView {
        match self {
            KafResponseBody::Unsupported(b) => KafResponseBodyView::Unsupported(*b),
            KafResponseBody::ApiVersions(b) => KafResponseBodyView::ApiVersions(b.deep_view()),
            KafResponseBody::DescribeTopicPartitions(b) => {
                KafResponseBodyView::DescribeTopicPartitions(b.deep_view())
            },
        }
    }
}

impl Default for KafResponseBody {
    /// The default body is the generic unsupported one.
    fn default() -> (r: Self)
        ensures
            r == KafResponseBody::Unsupported(
                UnsupportedResponse { error_code: crate::api::ERROR_GENERIC_UNSUPPORTED },
            ),
    {
        KafResponseBody::Unsupported(
            UnsupportedResponse { error_code: crate::api::ERROR_GENERIC_UNSUPPORTED },
        )
    }
}

impl EncodeToBytes for KafResponseBody {
    open spec fn spec_enc_wf(v: KafResponseBodyView) -> bool {
        match v {
            KafResponseBodyView::Unsupported(b) => true,
            KafResponseBodyView::ApiVersions(b) => ApiVersionsResponse::spec_enc_wf(b),
            KafResponseBodyView::DescribeTopicPartitions(b) => {
                DescribeTopicPartitionsResponse::spec_enc_wf(b)
            },
        }
    }

    open spec fn spec_encode(v: KafResponseBodyView) -> Seq<u8> {
        match v {
            KafResponseBodyView::Unsupported(b) => UnsupportedResponse::spec_encode(b),
            KafResponseBodyView::ApiVersions(b) => ApiVersionsResponse::spec_encode(b),
            KafResponseBodyView::DescribeTopicPartitions(b) => {
                DescribeTopicPartitionsResponse::spec_encode(b)
            },
        }
    }

    fn encode_to_bytes(&self) -> (r: Vec<u8>) {
        match self {
            KafResponseBody::Unsupported(b) => b.encode_to_bytes(),
            KafResponseBody::ApiVersions(b) => b.encode_to_bytes(),
            KafResponseBody::DescribeTopicPartitions(b) => b.encode_to_bytes(),
        }
    }
}

/// The view of a whole response.
pub struct KafResponseView {
    pub header: KafResponseHeader,
    pub body: KafResponseBodyView,
}

/// A response: its header and its body. Encoded, it is one frame: a 4-byte
/// big-endian length equal to the byte length of header plus body, then
/// the two encodings concatenated.
#[derive(Debug, Clone)]
pub struct KafResponse {
    pub header: KafResponseHeader,
    pub body: KafResponseBody,
}

impl DeepView for KafResponse {
    type V = KafResponseView;

    open spec fn deep_view(&self) -> KafResponseView {
        KafResponseView { header: self.header, body: self.body.deep_view() }
    }
}

impl KafResponse {
    /// A response from its parts.
    pub fn new(header: KafResponseHeader, body: KafResponseBody) -> (r: KafResponse)
        ensures
            r.header == header,
            r.body == body,
    {
        KafResponse { header, body }
    }
}

/// The frame layout of a response: the payload is the encoded header
/// followed by the encoded body, and the length prefix is the payload's
/// byte length — or −1 in the degenerate case that it exceeds the 32-bit
/// range.
pub open spec fn spec_frame_enc(v: KafResponseView) -> Seq<u8> {
    let payload = spec_response_header_enc(v.header) + KafResponseBody::spec_encode(v.body);
    let len_field: i32 = if payload.len() <= 0x7fff_ffff {
        payload.len() as i32
    } else {
        -1i32
    };
    spec_i32_be(len_field) + payload
}

impl EncodeToBytes for KafResponse {
    open spec fn spec_enc_wf(v: KafResponseView) -> bool {
        KafResponseBody::spec_enc_wf(v.body)
    }

    open spec fn spec_encode(v: KafResponseView) -> Seq<u8> {
        spec_frame_enc(v)
    }

    fn encode_to_bytes(&self) -> (r: Vec<u8>) {
        let header_bytes = self.header.encode_to_bytes();
        let body_bytes = self.body.encode_to_bytes();
        let hl = header_bytes.len();
        let bl = body_bytes.len();
        let total_length: i32 = if hl <= 0x7fff_ffff && bl <= 0x7fff_ffff - hl {
            (hl + bl) as i32
        } else {
            -1
        };
        let mut out = total_length.encode_to_bytes();
        let mut hb = header_bytes;
        let mut bb = body_bytes;
        out.append(&mut hb);
        out.append(&mut bb);
        assert(out@ =~= spec_frame_enc(self.deep_view()));
        out
    }
}

} // verus!
