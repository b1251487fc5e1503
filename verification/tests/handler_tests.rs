use kafwire::api::{
    is_api_version_compatible, supported_api_registry, ApiRegistry, ApiVersionEntry, KafApiKey,
};
use kafwire::codec::{DecodeFromBytes, EncodeToBytes};
use kafwire::handlers::handle_request;
use kafwire::request::{
    DescribeTopicPartitionsBody, KafRequest, KafRequestBody, KafRequestHeader, TopicsEntry,
};
use kafwire::response::{KafResponseBody, KafResponseHeader};
use kafwire::types::{CompactArray, CompactString};

fn request(api_key: i16, api_version: i16, body: KafRequestBody) -> KafRequest {
    KafRequest {
        header: KafRequestHeader {
            request_api_key: api_key,
            request_api_version: api_version,
            correlation_id: 42,
            client_id: None,
            tags: None,
        },
        body,
    }
}

fn dtp_body(topics: Option<Vec<&str>>) -> KafRequestBody {
    KafRequestBody::DescribeTopicPartitions(DescribeTopicPartitionsBody {
        topics: CompactArray(topics.map(|names| {
            names
                .into_iter()
                .map(|n| TopicsEntry {
                    name: CompactString(n.to_string()),
                    _tagged_fields: 0,
                })
                .collect()
        })),
        response_partition_limit: 1,
        cursor: 0xFF,
        _tagged_fields: 0,
    })
}

#[test]
fn registry_gates_versions() {
    let reg = supported_api_registry();
    assert!(is_api_version_compatible(&reg, KafApiKey::ApiVersions, 0));
    assert!(is_api_version_compatible(&reg, KafApiKey::ApiVersions, 4));
    assert!(!is_api_version_compatible(&reg, KafApiKey::ApiVersions, 5));
    assert!(!is_api_version_compatible(&reg, KafApiKey::ApiVersions, -1));
    assert!(is_api_version_compatible(
        &reg,
        KafApiKey::DescribeTopicPartitions,
        0
    ));
    assert!(!is_api_version_compatible(
        &reg,
        KafApiKey::DescribeTopicPartitions,
        1
    ));
    // a key absent from the registry is entirely unimplemented
    assert!(!is_api_version_compatible(&reg, KafApiKey::Fetch, 0));
}

#[test]
fn api_key_codes_round_trip() {
    for k in [
        KafApiKey::Fetch,
        KafApiKey::ApiVersions,
        KafApiKey::DescribeTopicPartitions,
    ] {
        assert_eq!(KafApiKey::from_code(k.code()), Some(k));
    }
    assert_eq!(KafApiKey::from_code(9999), None);
}

#[test]
fn unsupported_version_yields_error_body_without_entries() {
    let reg = supported_api_registry();
    // ApiVersions is registered for versions 0 through 4; ask for 9
    let resp = handle_request(&reg, request(18, 9, KafRequestBody::Empty)).unwrap();
    match resp.body {
        KafResponseBody::ApiVersions(b) => {
            assert_eq!(b.error_code, 35);
            assert!(b.api_keys.0.is_none());
        },
        _ => panic!("expected an ApiVersions body"),
    }
    // header shape follows the request's declared version
    assert!(matches!(resp.header, KafResponseHeader::V1(_)));

    // the same at version 0 keeps the plain header shape
    let reg = supported_api_registry();
    let mut gated = request(18, 9, KafRequestBody::Empty);
    gated.header.request_api_version = 0;
    // version 0 is supported for ApiVersions, so gate through an unknown key
    gated.header.request_api_key = 9999;
    let resp = handle_request(&reg, gated).unwrap();
    assert!(matches!(resp.header, KafResponseHeader::V0(_)));
    match resp.body {
        KafResponseBody::ApiVersions(b) => assert_eq!(b.error_code, 35),
        _ => panic!("expected an ApiVersions body"),
    }
}

#[test]
fn supported_version_lists_every_registry_entry() {
    let reg = supported_api_registry();
    let registry_size = reg.entries.len();
    let resp = handle_request(&reg, request(18, 4, KafRequestBody::Empty)).unwrap();
    match resp.body {
        KafResponseBody::ApiVersions(b) => {
            assert_eq!(b.error_code, 0);
            let keys = b.api_keys.0.unwrap();
            assert_eq!(keys.len(), registry_size);
            assert_eq!(keys[0].api_key, KafApiKey::ApiVersions);
            assert_eq!((keys[0].min_version, keys[0].max_version), (0, 4));
        },
        _ => panic!("expected an ApiVersions body"),
    }
    assert!(matches!(resp.header, KafResponseHeader::V0(_)));
}

#[test]
fn describe_topic_partitions_echoes_unknown_topic() {
    let reg = supported_api_registry();
    let resp = handle_request(&reg, request(75, 0, dtp_body(Some(vec!["foo"])))).unwrap();
    match resp.body {
        KafResponseBody::DescribeTopicPartitions(b) => {
            let topics = b.topics.0.unwrap();
            assert_eq!(topics.len(), 1);
            assert_eq!(topics[0].name.0, "foo");
            assert_eq!(topics[0].error_code, 3);
            assert_eq!(topics[0].topic_id, [0u8; 16]);
            assert!(!topics[0].is_internal);
            assert_eq!(topics[0].partitions.0.as_ref().map(|p| p.len()), Some(0));
        },
        _ => panic!("expected a DescribeTopicPartitions body"),
    }
}

#[test]
fn describe_topic_partitions_answers_each_topic_in_order() {
    let reg = supported_api_registry();
    let resp = handle_request(&reg, request(75, 0, dtp_body(Some(vec!["a", "b", "c"])))).unwrap();
    match resp.body {
        KafResponseBody::DescribeTopicPartitions(b) => {
            let topics = b.topics.0.unwrap();
            let names: Vec<&str> = topics.iter().map(|t| t.name.0.as_str()).collect();
            assert_eq!(names, vec!["a", "b", "c"]);
            assert!(topics.iter().all(|t| t.error_code == 3));
        },
        _ => panic!("expected a DescribeTopicPartitions body"),
    }
}

#[test]
fn null_topics_yield_single_invalid_request_entry() {
    let reg = supported_api_registry();
    let resp = handle_request(&reg, request(75, 0, dtp_body(None))).unwrap();
    match resp.body {
        KafResponseBody::DescribeTopicPartitions(b) => {
            let topics = b.topics.0.unwrap();
            assert_eq!(topics.len(), 1);
            assert_eq!(topics[0].error_code, 42);
            assert_eq!(topics[0].name.0, "");
            assert_eq!(topics[0].topic_id, [0u8; 16]);
        },
        _ => panic!("expected a DescribeTopicPartitions body"),
    }
}

#[test]
fn unhandled_registered_key_gets_generic_unsupported_body() {
    // a registry that also offers Fetch, which has no handler
    let reg = ApiRegistry {
        entries: vec![
            ApiVersionEntry::new(KafApiKey::ApiVersions, 0, 4),
            ApiVersionEntry::new(KafApiKey::Fetch, 0, 17),
        ],
    };
    let resp = handle_request(&reg, request(1, 3, KafRequestBody::Empty)).unwrap();
    match resp.body {
        KafResponseBody::Unsupported(b) => assert_eq!(b.error_code, -1),
        _ => panic!("expected the generic unsupported body"),
    }
}

#[test]
fn full_pipeline_decodes_dispatches_and_frames() {
    // a DescribeTopicPartitions v0 request naming "foo", byte by byte
    let mut buf = Vec::new();
    buf.extend_from_slice(&75i16.to_be_bytes()); // api key
    buf.extend_from_slice(&0i16.to_be_bytes()); // api version
    buf.extend_from_slice(&7i32.to_be_bytes()); // correlation id
    buf.extend_from_slice(&(-1i16).to_be_bytes()); // null client id
    buf.push(0x00); // null tag buffer
    buf.push(0x02); // topics: one entry
    buf.push(0x04); // name length 3 + 1
    buf.extend_from_slice(b"foo");
    buf.push(0x00); // entry tag byte
    buf.extend_from_slice(&1i32.to_be_bytes()); // partition limit
    buf.push(0xFF); // cursor
    buf.push(0x00); // body tag byte

    let mut off = 0usize;
    let req = KafRequest::read_from_u8(&buf, &mut off).unwrap();
    assert_eq!(off, buf.len());

    let reg = supported_api_registry();
    let resp = handle_request(&reg, req).unwrap();
    assert!(matches!(resp.header, KafResponseHeader::V1(_)));

    let frame = resp.encode_to_bytes();
    // the length prefix covers exactly the rest of the frame
    let len = i32::from_be_bytes([frame[0], frame[1], frame[2], frame[3]]) as usize;
    assert_eq!(len + 4, frame.len());
    // the correlation id is echoed right after the prefix
    assert_eq!(&frame[4..8], &7i32.to_be_bytes());
    // header is flexible: one tag byte follows the correlation id
    assert_eq!(frame[8], 0x00);
    // the echoed topic name appears in the body
    let body = &frame[9..];
    assert!(body.windows(3).any(|w| w == b"foo"));
}

#[test]
fn unknown_topic_entry_encodes_exactly() {
    let entry = kafwire::topic_partitions::TopicsEntry::unknown_topic("a".to_string());
    let mut expected = Vec::new();
    expected.extend_from_slice(&3i16.to_be_bytes()); // unknown topic error
    expected.push(0x02); // compact string: length 1 + 1
    expected.push(b'a');
    expected.extend_from_slice(&[0u8; 16]); // zero topic id
    expected.push(0x00); // not internal
    expected.push(0x01); // empty (not absent) partition list
    expected.extend_from_slice(&0x0df8i32.to_be_bytes()); // authorized operations
    expected.push(0x00); // tag byte
    assert_eq!(entry.encode_to_bytes(), expected);
}
