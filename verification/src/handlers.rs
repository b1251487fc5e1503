//! The dispatcher: maps a decoded request to its handler by API key and
//! builds the typed response. Dispatch-level conditions — an unsupported
//! version, an unknown topic — are ordinary response payloads with a
//! non-zero error code, never errors of the codec.

use vstd::prelude::*;

use crate::api::{
    is_api_version_compatible, spec_find_entry, ApiRegistry, ApiVersionEntry, KafApiKey,
    ERROR_GENERIC_UNSUPPORTED, ERROR_INVALID_REQUEST, ERROR_NONE, ERROR_UNKNOWN_TOPIC_OR_PARTITION,
    ERROR_UNSUPPORTED_VERSION,
};
use crate::codec::EncodeToBytes;
use crate::request::{KafRequest, KafRequestBody, KafRequestBodyView, KafRequestView};
use crate::response::{
    spec_header_for_version, ApiVersionsResponse, ApiVersionsResponseView, KafResponse,
    KafResponseBody, KafResponseBodyView, KafResponseHeader, KafResponseView, UnsupportedResponse,
    V0Header, V1Header,
};
use crate::topic_partitions::{
    DescribeTopicPartitionsResponse, DescribeTopicPartitionsResponseView, TopicsEntryView,
    DEFAULT_AUTHORIZED_OPERATIONS, NULL_CURSOR,
};
use crate::types::CompactArray;

verus! {

use vstd::string::StringExecFns;

/// The topic result the broker reports for one requested name: unknown
/// topic, the name echoed, an all-zero id, an empty partition list.
pub open spec fn spec_unknown_topic_view(name: Seq<char>) -> TopicsEntryView {
    TopicsEntryView {
        error_code: ERROR_UNKNOWN_TOPIC_OR_PARTITION,
        name,
        topic_id: Seq::new(16, |i: int| 0u8),
        is_internal: false,
        partitions: Some(Seq::<crate::topic_partitions::PartitionsEntry>::empty()),
        topic_authorized_operations: DEFAULT_AUTHORIZED_OPERATIONS,
        _tagged_fields: 0u8,
    }
}

/// The single synthetic result of a request whose topics field was null.
pub open spec fn spec_bad_request_topic_view() -> TopicsEntryView {
    TopicsEntryView {
        error_code: ERROR_INVALID_REQUEST,
        name: Seq::<char>::empty(),
        topic_id: Seq::new(16, |i: int| 0u8),
        is_internal: false,
        partitions: Some(Seq::<crate::topic_partitions::PartitionsEntry>::empty()),
        topic_authorized_operations: DEFAULT_AUTHORIZED_OPERATIONS,
        _tagged_fields: 0u8,
    }
}

/// The DescribeTopicPartitions response body owed to a request: one
/// unknown-topic result per requested name, in order; a single
/// invalid-request result when the request named no topics at all.
pub open spec fn spec_dtp_response_view(
    topics: Option<Seq<crate::request::TopicsEntryView>>,
) -> DescribeTopicPartitionsResponseView {
    DescribeTopicPartitionsResponseView {
        throttle_time: 0i32,
        topics: match topics {
            None => Some(seq![spec_bad_request_topic_view()]),
            Some(ts) => Some(
                ts.map_values(|t: crate::request::TopicsEntryView| spec_unknown_topic_view(t.name)),
            ),
        },
        next_cursor: NULL_CURSOR,
        _tagged_fields: 0u8,
    }
}

/// What the dispatcher owes a decoded request, as a function of the
/// registry's rows and the request's view. A result of `None` marks the
/// one malformed combination — a DescribeTopicPartitions key over a body
/// of another shape — which no decoded request exhibits.
pub open spec fn spec_handle(entries: Seq<ApiVersionEntry>, req: KafRequestView) -> Option<
    KafResponseView,
> {
    let code = req.header.request_api_key;
    let version = req.header.request_api_version;
    let supported = match KafApiKey::spec_from_code(code) {
        Some(k) => match spec_find_entry(entries, k) {
            Some(e) => e.min_version <= version && version <= e.max_version,
            None => false,
        },
        None => false,
    };
    if !supported {
        Some(
            KafResponseView {
                header: spec_header_for_version(version, req.header.correlation_id),
                body: KafResponseBodyView::ApiVersions(
                    ApiVersionsResponseView {
                        error_code: ERROR_UNSUPPORTED_VERSION,
                        api_keys: None,
                        throttle_time: 0i32,
                        tagged_buffer: 0u8,
                    },
                ),
            },
        )
    } else {
        match KafApiKey::spec_from_code(code) {
            Some(KafApiKey::ApiVersions) => Some(
                KafResponseView {
                    header: KafResponseHeader::V0(
                        V0Header { correlation_id: req.header.correlation_id },
                    ),
                    body: KafResponseBodyView::ApiVersions(
                        ApiVersionsResponseView {
                            error_code: ERROR_NONE,
                            api_keys: Some(entries),
                            throttle_time: 0i32,
                            tagged_buffer: 0u8,
                        },
                    ),
                },
            ),
            Some(KafApiKey::DescribeTopicPartitions) => match req.body {
                KafRequestBodyView::DescribeTopicPartitions(b) => Some(
                    KafResponseView {
                        header: KafResponseHeader::V1(
                            V1Header {
                                correlation_id: req.header.correlation_id,
                                _tagged_fields: 0u8,
                            },
                        ),
                        body: KafResponseBodyView::DescribeTopicPartitions(
                            spec_dtp_response_view(b.topics),
                        ),
                    },
                ),
                _ => None,
            },
            _ => Some(
                KafResponseView {
                    header: KafResponseHeader::V0(
                        V0Header { correlation_id: req.header.correlation_id },
                    ),
                    body: KafResponseBodyView::Unsupported(
                        UnsupportedResponse { error_code: ERROR_GENERIC_UNSUPPORTED },
                    ),
                },
            ),
        }
    }
}

/// Builds the successful ApiVersions response: the plain header shape, and
/// a body listing every registry row with no error.
pub fn handle_api_versions(registry: &ApiRegistry, request: KafRequest) -> (r: Result<
    KafResponse,
    String,
>)
    ensures
        r matches Ok(resp) && resp.deep_view() == (KafResponseView {
            header: KafResponseHeader::V0(
                V0Header { correlation_id: request.header.correlation_id },
            ),
            body: KafResponseBodyView::ApiVersions(
                ApiVersionsResponseView {
                    error_code: ERROR_NONE,
                    api_keys: Some(registry.entries.deep_view()),
                    throttle_time: 0i32,
                    tagged_buffer: 0u8,
                },
            ),
        }),
{
    let mut api_keys_vec: Vec<ApiVersionEntry> = Vec::new();
    let mut i: usize = 0;
    while i < registry.entries.len()
        invariant
            i <= registry.entries@.len(),
            api_keys_vec@ == registry.entries@.take(i as int),
        decreases registry.entries@.len() - i,
    {
        api_keys_vec.push(registry.entries[i]);
        proof {
            assert(registry.entries@.take(i + 1) =~= registry.entries@.take(i as int).push(
                registry.entries@[i as int],
            ));
        }
        i = i + 1;
    }
    proof {
        assert(registry.entries@.take(registry.entries@.len() as int) =~= registry.entries@);
        assert(api_keys_vec.deep_view() =~= registry.entries.deep_view());
    }
    Ok(
        KafResponse {
            header: KafResponseHeader::v0(request.header),
            body: KafResponseBody::ApiVersions(
                ApiVersionsResponse::new(CompactArray(Some(api_keys_vec))),
            ),
        },
    )
}

/// Builds the DescribeTopicPartitions response: the flexible header shape,
/// and one unknown-topic result per requested name — or the single
/// invalid-request result when the topics field was null. The request's
/// body must carry the DescribeTopicPartitions shape; any other body is
/// answered with an error value.
pub fn handle_describe_topic_partitions_request(request: KafRequest) -> (r: Result<
    KafResponse,
    String,
>)
    ensures
        match r {
            Ok(resp) => request.body matches KafRequestBody::DescribeTopicPartitions(b)
                && resp.deep_view() == (KafResponseView {
                header: KafResponseHeader::V1(
                    V1Header { correlation_id: request.header.correlation_id, _tagged_fields: 0u8 },
                ),
                body: KafResponseBodyView::DescribeTopicPartitions(
                    spec_dtp_response_view(b.deep_view().topics),
                ),
            }),
            Err(msg) => !(request.body matches KafRequestBody::DescribeTopicPartitions(_))
                && msg@ == "Bad Request"@,
        },
{
    let body = match request.body.into_describe_topic_partitions() {
        Ok(b) => b,
        Err(_) => {
            return Err(String::from_str("Bad Request"));
        },
    };
    let topics = match body.topics.0 {
        None => {
            let resp_body = DescribeTopicPartitionsResponse::bad_request();
            proof {
                let tv = resp_body.deep_view().topics;
                assert(tv is Some);
                assert(tv.unwrap() =~= seq![spec_bad_request_topic_view()]);
                assert(resp_body.deep_view() == spec_dtp_response_view(None));
            }
            return Ok(
                KafResponse {
                    header: KafResponseHeader::v1(request.header),
                    body: KafResponseBody::DescribeTopicPartitions(resp_body),
                },
            );
        },
        Some(ts) => ts,
    };
    let ghost topic_views = topics.deep_view();
    let mut response_topics: Vec<crate::topic_partitions::TopicsEntry> = Vec::new();
    let mut i: usize = 0;
    while i < topics.len()
        invariant
            i <= topics@.len(),
            topic_views == topics.deep_view(),
            response_topics.deep_view() == topic_views.take(i as int).map_values(
                |t: crate::request::TopicsEntryView| spec_unknown_topic_view(t.name),
            ),
        decreases topics@.len() - i,
    {
        let name = topics[i].name.0.clone();
        proof {
            assert(name@ == topic_views[i as int].name);
        }
        let entry = crate::topic_partitions::TopicsEntry::unknown_topic(name);
        let ghost before = response_topics.deep_view();
        response_topics.push(entry);
        proof {
            assert(entry.deep_view() == spec_unknown_topic_view(topic_views[i as int].name));
            assert(response_topics.deep_view() =~= before.push(entry.deep_view()));
            assert(topic_views.take(i + 1) =~= topic_views.take(i as int).push(
                topic_views[i as int],
            ));
            assert(response_topics.deep_view() =~= topic_views.take(i + 1).map_values(
                |t: crate::request::TopicsEntryView| spec_unknown_topic_view(t.name),
            ));
        }
        i = i + 1;
    }
    proof {
        assert(topic_views.take(topic_views.len() as int) =~= topic_views);
    }
    Ok(
        KafResponse {
            header: KafResponseHeader::v1(request.header),
            body: KafResponseBody::DescribeTopicPartitions(
                DescribeTopicPartitionsResponse::from_topics(response_topics),
            ),
        },
    )
}

/// Builds the generic response to an API key with no handler: the plain
/// header shape and the unsupported body.
pub fn handle_unsupported_request(request: KafRequest) -> (r: Result<KafResponse, String>)
    ensures
        r matches Ok(resp) && resp.deep_view() == (KafResponseView {
            header: KafResponseHeader::V0(
                V0Header { correlation_id: request.header.correlation_id },
            ),
            body: KafResponseBodyView::Unsupported(
                UnsupportedResponse { error_code: ERROR_GENERIC_UNSUPPORTED },
            ),
        }),
{
    Ok(
        KafResponse {
            header: KafResponseHeader::v0(request.header),
            body: KafResponseBody::Unsupported(
                UnsupportedResponse::with_error_code(ERROR_GENERIC_UNSUPPORTED),
            ),
        },
    )
}

/// The dispatcher. If the requested API version is unsupported — the key
/// is unknown, absent from the registry, or outside its version range —
/// the response is the ApiVersions body carrying the unsupported-version
/// error, under the header shape the request's declared version selects.
/// Otherwise the handler the key names builds the response. The one error
/// value answers a DescribeTopicPartitions key over a body of another
/// shape, which no decoded request produces.
pub fn handle_request(registry: &ApiRegistry, request: KafRequest) -> (r: Result<
    KafResponse,
    String,
>)
    ensures
        match r {
            Ok(resp) => spec_handle(registry.entries.deep_view(), request.deep_view()) == Some(
                resp.deep_view(),
            ),
            Err(msg) => spec_handle(registry.entries.deep_view(), request.deep_view()) is None
                && msg@ == "Bad Request"@,
        },
{
    proof {
        assert(registry.entries.deep_view() =~= registry.entries@);
    }
    let key = KafApiKey::from_code(request.header.request_api_key);
    let supported = match key {
        Some(k) => is_api_version_compatible(registry, k, request.header.request_api_version),
        None => false,
    };
    if !supported {
        return Ok(
            KafResponse {
                header: KafResponseHeader::from_request_header(request.header),
                body: KafResponseBody::ApiVersions(
                    ApiVersionsResponse::with_error_code(ERROR_UNSUPPORTED_VERSION),
                ),
            },
        );
    }
    match key {
        Some(KafApiKey::ApiVersions) => handle_api_versions(registry, request),
        Some(KafApiKey::DescribeTopicPartitions) => handle_describe_topic_partitions_request(
            request,
        ),
        _ => handle_unsupported_request(request),
    }
}

/// Whether a request's own fields fit the wire format's length fields, so
/// that the response echoing them can be encoded. Every decoded request
/// satisfies this: a compact array carries fewer elements than its 32-bit
/// length field, and a topic name fewer bytes.
pub open spec fn spec_req_encodable(req: KafRequestView) -> bool {
    match req.body {
        KafRequestBodyView::DescribeTopicPartitions(b) => match b.topics {
            Some(ts) => ts.len() + 1 <= 0xffff_ffff && forall|i: int|
                0 <= i < ts.len() ==> vstd::utf8::encode_utf8((#[trigger] ts[i]).name).len() + 1
                    <= 0xffff_ffff,
            None => true,
        },
        _ => true,
    }
}

/// Every response the dispatcher owes is encodable, as long as the
/// registry and the request's own fields fit the wire format's length
/// fields: the frame encoder's precondition always holds on the
/// dispatcher's output.
pub proof fn lemma_handle_response_encodable(entries: Seq<ApiVersionEntry>, req: KafRequestView)
    requires
        entries.len() + 1 <= 0xffff_ffff,
        spec_req_encodable(req),
        spec_handle(entries, req) is Some,
    ensures
        KafResponse::spec_enc_wf(spec_handle(entries, req).unwrap()),
{
    let resp = spec_handle(entries, req).unwrap();
    match resp.body {
        KafResponseBodyView::ApiVersions(b) => {
            assert(crate::types::spec_compact_array_wf::<ApiVersionEntry>(b.api_keys));
        },
        KafResponseBodyView::DescribeTopicPartitions(b) => {
            let ts = b.topics.unwrap();
            assert(b.topics == Some(ts));
            assert forall|i: int| 0 <= i < ts.len() implies
                crate::topic_partitions::TopicsEntry::spec_enc_wf(#[trigger] ts[i]) by {
                match req.body {
                    KafRequestBodyView::DescribeTopicPartitions(rb) => match rb.topics {
                        Some(req_ts) => {
                            assert(ts[i] == spec_unknown_topic_view(req_ts[i].name));
                        },
                        None => {
                            assert(ts[i] == spec_bad_request_topic_view());
                            vstd::utf8::encode_utf8_valid_utf8(Seq::<char>::empty());
                            assert(vstd::utf8::encode_utf8(Seq::<char>::empty()).len() == 0);
                        },
                    },
                    _ => {
                        assert(false);
                    },
                }
            }
            assert(crate::types::spec_compact_array_wf::<
                crate::topic_partitions::TopicsEntry,
            >(b.topics));
        },
        KafResponseBodyView::Unsupported(b) => {},
    }
}

} // verus!
