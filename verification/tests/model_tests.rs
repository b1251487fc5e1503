use kafwire::codec::{DecodeFromBytes, EncodeToBytes};
use kafwire::errors::EncodingError;
use kafwire::request::{DescribeTopicPartitionsBody, KafRequestHeader, TopicsEntry};
use kafwire::response::{
    ApiVersionsResponse, KafResponse, KafResponseBody, KafResponseHeader, Response,
    UnsupportedResponse, V0Header,
};
use kafwire::types::{CompactArray, CompactString, UnsignedVarInt};
use kafwire::wire::TaggedField;

fn write_uvar(buf: &mut Vec<u8>, mut x: u32) {
    loop {
        let mut byte = (x & 0x7F) as u8;
        x >>= 7;
        if x != 0 {
            byte |= 0x80;
            buf.push(byte);
        } else {
            buf.push(byte);
            break;
        }
    }
}

fn example_header_bytes() -> Vec<u8> {
    // api_key=1, api_version=2, correlation_id=3, client_id="abc",
    // tags = [ (tag=1, data=[0xAA,0xBB]), (tag=7, data=[]) ]
    let mut buf = Vec::new();

    // INT16 1,2
    buf.extend_from_slice(&1i16.to_be_bytes());
    buf.extend_from_slice(&2i16.to_be_bytes());

    // INT32 3
    buf.extend_from_slice(&3i32.to_be_bytes());

    // NULLABLE_STRING "abc"
    let s = "abc".as_bytes();
    buf.extend_from_slice(&(s.len() as i16).to_be_bytes());
    buf.extend_from_slice(s);

    // COMPACT_ARRAY length = (N+1) as uvarint where N=2 -> 3
    write_uvar(&mut buf, 3);

    // tagged field 0: tag=1, size=2, data=[0xAA,0xBB]
    write_uvar(&mut buf, 1);
    write_uvar(&mut buf, 2);
    buf.extend_from_slice(&[0xAA, 0xBB]);

    // tagged field 1: tag=7, size=0, data=[]
    write_uvar(&mut buf, 7);
    write_uvar(&mut buf, 0);

    buf
}

#[test]
fn round_trip_header_example() {
    let buf = example_header_bytes();
    let mut offset = 0;
    let hdr = KafRequestHeader::read_from_u8(&buf, &mut offset).unwrap();
    assert_eq!(offset, buf.len());
    assert_eq!(hdr.request_api_key, 1);
    assert_eq!(hdr.request_api_version, 2);
    assert_eq!(hdr.correlation_id, 3);
    assert_eq!(hdr.client_id.as_deref(), Some("abc"));
    let tags = hdr.tags.unwrap();
    assert_eq!(tags.len(), 2);
    assert_eq!(tags[0].tag, 1);
    assert_eq!(tags[0].data, vec![0xAA, 0xBB]);
    assert_eq!(tags[1].tag, 7);
    assert!(tags[1].data.is_empty());
}

#[test]
fn header_encode_decode_is_identity() {
    let buf = example_header_bytes();
    let mut offset = 0;
    let hdr = KafRequestHeader::read_from_u8(&buf, &mut offset).unwrap();

    // re-encoding a decoded header gives the bytes it was decoded from,
    // and decoding those reproduces a structurally identical header
    let enc = hdr.encode_to_bytes();
    assert_eq!(enc, buf);
    let mut offset2 = 0;
    let hdr2 = KafRequestHeader::read_from_u8(&enc, &mut offset2).unwrap();
    assert_eq!(offset2, enc.len());
    assert_eq!(hdr2.request_api_key, hdr.request_api_key);
    assert_eq!(hdr2.request_api_version, hdr.request_api_version);
    assert_eq!(hdr2.correlation_id, hdr.correlation_id);
    assert_eq!(hdr2.client_id, hdr.client_id);
    let t1 = hdr.tags.unwrap();
    let t2 = hdr2.tags.unwrap();
    assert_eq!(t1.len(), t2.len());
    for (a, b) in t1.iter().zip(t2.iter()) {
        assert_eq!(a.tag, b.tag);
        assert_eq!(a.data, b.data);
    }
}

#[test]
fn compact_array_absent_and_empty_are_distinct() {
    // absent encodes to exactly [0x00]
    let absent: CompactArray<TaggedField> = CompactArray(None);
    assert_eq!(absent.encode_to_bytes(), vec![0x00]);

    // present-but-empty encodes to exactly [0x01]
    let empty: CompactArray<TaggedField> = CompactArray(Some(vec![]));
    assert_eq!(empty.encode_to_bytes(), vec![0x01]);

    // and both decode back to what they were
    let mut off = 0usize;
    let a = CompactArray::<TaggedField>::read_from_u8(&[0x00], &mut off).unwrap();
    assert!(a.0.is_none());
    let mut off = 0usize;
    let e = CompactArray::<TaggedField>::read_from_u8(&[0x01], &mut off).unwrap();
    assert_eq!(e.0.map(|v| v.len()), Some(0));
}

#[test]
fn compact_array_round_trips_elements_in_order() {
    let arr = CompactArray(Some(vec![
        UnsignedVarInt(5),
        UnsignedVarInt(300),
        UnsignedVarInt(0),
    ]));
    let enc = arr.encode_to_bytes();
    assert_eq!(enc, vec![0x04, 0x05, 0xAC, 0x02, 0x00]);
    let mut off = 0usize;
    let back = CompactArray::<UnsignedVarInt>::read_from_u8(&enc, &mut off).unwrap();
    let items = back.0.unwrap();
    assert_eq!(off, enc.len());
    assert_eq!(items.len(), 3);
    assert_eq!(items[0].0, 5);
    assert_eq!(items[1].0, 300);
    assert_eq!(items[2].0, 0);
}

#[test]
fn compact_string_round_trips_and_rejects_zero_length() {
    let cs = CompactString("abc".to_string());
    let enc = cs.encode_to_bytes();
    assert_eq!(enc, vec![0x04, b'a', b'b', b'c']);
    let mut off = 0usize;
    let back = CompactString::read_from_u8(&enc, &mut off).unwrap();
    assert_eq!(back.0, "abc");
    assert_eq!(off, enc.len());

    // a zero length field has no meaning for a compact string
    let mut off = 0usize;
    let r = CompactString::read_from_u8(&[0x00], &mut off);
    assert_eq!(r.err(), Some(EncodingError::InvalidLength(-1)));
}

#[test]
fn describe_topic_partitions_body_decodes() {
    let mut buf = Vec::new();
    // topics: one entry, name "foo", tag byte 0
    write_uvar(&mut buf, 2);
    write_uvar(&mut buf, 4);
    buf.extend_from_slice(b"foo");
    buf.push(0x00);
    // response_partition_limit
    buf.extend_from_slice(&100i32.to_be_bytes());
    // cursor, tag byte
    buf.push(0xFF);
    buf.push(0x00);

    let mut off = 0usize;
    let body = DescribeTopicPartitionsBody::read_from_u8(&buf, &mut off).unwrap();
    assert_eq!(off, buf.len());
    let topics: Vec<TopicsEntry> = body.topics.0.unwrap();
    assert_eq!(topics.len(), 1);
    assert_eq!(topics[0].name.0, "foo");
    assert_eq!(body.response_partition_limit, 100);
    assert_eq!(body.cursor, 0xFF);
}

#[test]
fn fixed_size_response_serializes_big_endian() {
    let r = Response::new(8, 7);
    assert_eq!(r.to_vec(), vec![0, 0, 0, 8, 0, 0, 0, 7]);
    let neg = Response::new(-1, 0x01020304);
    assert_eq!(neg.to_vec(), vec![0xFF, 0xFF, 0xFF, 0xFF, 1, 2, 3, 4]);
}

#[test]
fn response_frame_has_length_prefix_and_payload() {
    let resp = KafResponse::new(
        KafResponseHeader::V0(V0Header { correlation_id: 7 }),
        KafResponseBody::Unsupported(UnsupportedResponse::with_error_code(-1)),
    );
    let bytes = resp.encode_to_bytes();
    // payload: 4 bytes of correlation id + 2 bytes of error code
    assert_eq!(bytes, vec![0, 0, 0, 6, 0, 0, 0, 7, 0xFF, 0xFF]);
}

#[test]
fn api_versions_body_encodes_error_and_empty_list() {
    let body = ApiVersionsResponse::with_error_code(35);
    let bytes = body.encode_to_bytes();
    // error code 35, absent array, throttle time 0, tag byte 0
    assert_eq!(bytes, vec![0x00, 0x23, 0x00, 0, 0, 0, 0, 0x00]);
}
