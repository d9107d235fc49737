use kafka_broker::messages::primitives::{CompactArray, CompactRecords, ParseError, Serialize, TaggedFields};
use kafka_broker::messages::requests;
use kafka_broker::messages::responses::fetch::{AbortedTransactions, Partition};
use kafka_broker::messages::ErrorCode;
use kafka_broker::meta::{Meta, PartitionRecord, RecordValueType, TopicRecord};
use kafka_broker::process::{process, try_process};

fn fetch_file() -> Meta {
    Meta::from_records("/tmp/kraft-combined-logs/".to_string(), Vec::new())
}

#[test]
fn test_full_parse_api_version() {
    let meta = fetch_file();

    let arr = [
        0x00, 0x00, 0x00, 0x23, // len = 0x23 => 35
        0x00, 0x12, // request_api_key = 0x12 => 18
        0x00, 0x04, // request_api_version = 0x04 => 4
        0x6d, 0xfe, 0xa9, 0x9a, // correlation_id = 0x6d 0xfe 0xa9 0x9a
        0x00, 0x09, // client_id len = 0x09
        0x6b, 0x61, 0x66, 0x6b, 0x61, 0x2d, 0x63, 0x6c, 0x69, // kafka-cli
        0x00, // _tagged_fields
        0x0a, // client_software_name len = 0x0a => 10 ==> 10 - 1 (CompactString)
        0x6b, 0x61, 0x66, 0x6b, 0x61, 0x2d, 0x63, 0x6c, 0x69, // kafka-cli
        0x04, // client_software_version len = 0x04 => 4 ==> 4 - 1 (CompactString)
        0x30, 0x2e, 0x31, // 0.1
        0x0,  // _tagged_fields
    ];

    let exp = [
        0x00, 0x00, 0x00, 0x1a, // len
        0x6d, 0xfe, 0xa9, 0x9a, // correlation_id = 0x6d 0xfe 0xa9 0x9a
        0x00, 0x00, // error code = no error
        0x03, // len api_keys (compact array N + 1)
        0x00, 0x01, // api_key
        0x00, 0x10, // min_version
        0x00, 0x10, // max_version
        0x00, // _tagged_fields
        0x00, 0x12, // api_key
        0x00, 0x04, // min_version
        0x00, 0x04, // max_version
        0x00, // _tagged_fields
        0x00, 0x00, 0x00, 0x00, // throttle_time_ms
        0x00, // _tagged_fields
    ];

    let mut buf = Vec::with_capacity(150);
    process(&arr, &mut buf, &meta).expect("unable to extract");
    assert_eq!(exp, &buf[..]);
}

const FETCH_NO_TOPICS: [u8; 52] = [
    0x00, 0x00, 0x00, 0x30, // len
    0x00, 0x01, // request_api_key = 0x01
    0x00, 0x10, // request_api_version = 16
    0x1a, 0xf6, 0xe0, 0x6e, // correlation_id
    0x00, 0x0c, // client_id
    0x6b, 0x61, 0x66, 0x6b, 0x61, 0x2d, 0x74, 0x65, 0x73, 0x74, 0x65, 0x72, // kafka-tester
    0x00, // _tagged_fields
    0x00, 0x00, 0x01, 0xf4, // max_wait_ms
    0x00, 0x00, 0x00, 0x01, // min_bytes
    0x03, 0x20, 0x00, 0x00, // max_bytes
    0x00, // isolation_level
    0x02, 0x02, 0x02, 0x02, // session_id
    0x00, 0x00, 0x00, 0x00, // session_epoch
    0x01, // topic count
    0x01, // forgotten_topics_data count
    0x01, // rack_id count
    0x00, // _tagged_fields
];

#[test]
fn test_only_parse_fetch_no_topics() {
    let arr = FETCH_NO_TOPICS;

    let req = requests::Request::try_from(&arr[..]).expect("able to parse");
    assert_eq!(
        req.header.correlation_id,
        i32::from_be_bytes([0x1a, 0xf6, 0xe0, 0x6e])
    );
}

#[test]
fn test_full_parse_fetch_no_topics() {
    let meta = fetch_file();
    let arr = FETCH_NO_TOPICS;

    let exp = [
        0x00, 0x00, 0x00, 0x11, // len
        0x1a, 0xf6, 0xe0, 0x6e, // correlation_id
        0x00, // _tagged_fields
        0x00, 0x00, 0x00, 0x00, // throttle_time_ms
        0x00, 0x00, // error code
        0x02, 0x02, 0x02, 0x02, // session_id
        0x01, // responses count
        0x00, // _tagged_fields
    ];
    let mut buf = Vec::with_capacity(150);
    process(&arr, &mut buf, &meta).expect("unable to extract");

    assert_eq!(exp, &buf[..]);
}

fn fetch_one_topic(correlation: [u8; 4], uuid: [u8; 16]) -> Vec<u8> {
    let mut arr = vec![
        0x00, 0x00, 0x00, 0x60, // len
        0x00, 0x01, // request_api_key = 0x01 -> fetch
        0x00, 0x10, // request_api_version = 0x10 = 16
    ];
    arr.extend_from_slice(&correlation);
    arr.extend_from_slice(&[
        0x00, 0x09, // client_id
        0x6b, 0x61, 0x66, 0x6b, 0x61, 0x2d, 0x63, 0x6c, 0x69, // kafka-cli
        0x00, // _tagged_fields
        0x00, 0x00, 0x01, 0xf4, // max_wait_ms
        0x00, 0x00, 0x00, 0x01, // min_bytes
        0x03, 0x20, 0x00, 0x00, // max_bytes
        0x00, // isolation_level
        0x00, 0x00, 0x00, 0x00, // session_id
        0x00, 0x00, 0x00, 0x00, // session_epoch
        0x02, // topic count = N + 1 -> 1 topic
    ]);
    arr.extend_from_slice(&uuid);
    arr.extend_from_slice(&[
        0x02, // partition count = N + 1 -> 1 parition
        0x00, 0x00, 0x00, 0x00, // parition
        0xff, 0xff, 0xff, 0xff, // current_leader_epoch
        0x00, 0x00, 0x00, 0x00, 0x00, 0x00, 0x00, 0x00, // fetch_offset
        0xff, 0xff, 0xff, 0xff, // last_fetched_offset
        0xff, 0xff, 0xff, 0xff, 0xff, 0xff, 0xff, 0xff, // log_start_offset
        0x00, 0x10, 0x00, 0x00, // partition_max_bytes
        0x00, // _tagged_fields (partitions)
        0x00, // _tagged_fields (topics)
        0x01, // forgotten_topics_data count
        0x01, // rack_id count
        0x00, // _tagged_fields
    ]);
    arr
}

const UNKNOWN_UUID: [u8; 16] = [
    0x00, 0x00, 0x00, 0x00, 0x00, 0x00, 0x00, 0x00, // UUID (part 1)
    0x00, 0x00, 0x00, 0x00, 0x00, 0x00, 0x34, 0x73, // UUID (part 2)
];

fn fetch_one_topic_response(correlation: [u8; 4], uuid: [u8; 16], error_code: u8) -> Vec<u8> {
    let mut exp = vec![0x00, 0x00, 0x00, 0x48]; // len
    exp.extend_from_slice(&correlation);
    exp.extend_from_slice(&[
        0x00, // _tagged_fields
        0x00, 0x00, 0x00, 0x00, // throttle_time_ms
        0x00, 0x00, // error_code
        0x00, 0x00, 0x00, 0x00, // session_id
        0x02, // responses count
    ]);
    exp.extend_from_slice(&uuid);
    exp.extend_from_slice(&[
        0x02, // partition count
        0x00, 0x00, 0x00, 0x00, // parition_index
        0x00, error_code, // error_code
        0x00, 0x00, 0x00, 0x00, 0x00, 0x00, 0x00, 0x00, // high_watermark
        0x00, 0x00, 0x00, 0x00, 0x00, 0x00, 0x00, 0x00, // last_stable_offset
        0x00, 0x00, 0x00, 0x00, 0x00, 0x00, 0x00, 0x00, // log_start_offset
        0x01, // aborted_transactions count
        0x00, 0x00, 0x00, 0x00, // preferred_read_replica
        0x01, // records
        0x00, // _tagged_fields
        0x00, // _tagged_fields
        0x00, // _tagged_fields
    ]);
    exp
}

#[test]
fn test_full_parse_fetch_unknown_topic() {
    let meta = fetch_file();
    let correlation = [0x02, 0x7e, 0x9f, 0xe7];
    let arr = fetch_one_topic(correlation, UNKNOWN_UUID);
    assert_eq!(arr.len(), 0x60 + 4);

    let exp = fetch_one_topic_response(correlation, UNKNOWN_UUID, 0x64);

    let mut buf = Vec::with_capacity(150);
    process(&arr, &mut buf, &meta).expect("unable to extract");

    assert_eq!(exp, &buf[..]);
}

#[test]
fn test_full_parse_fetch_empty_topic() {
    let meta = fetch_file();
    // [0, 0, 0, 0, 0, 0, 64, 0, 128, 0, 0, 0, 0, 0, 0, 103]
    let uuid = [
        0x00, 0x00, 0x00, 0x00, 0x00, 0x00, 0x40, 0x00, // UUID (part 1)
        0x80, 0x00, 0x00, 0x00, 0x00, 0x00, 0x00, 0x67, // UUID (part 2)
    ];
    let arr = fetch_one_topic([0x25, 0xfc, 0x97, 0x90], uuid);

    let mut buf = Vec::with_capacity(150);
    let _len = process(&arr, &mut buf, &meta).expect("unable to extract");
}

#[test]
fn fetch_of_a_known_topic_has_no_error() {
    let uuid = 0x0000_0000_0000_4000_8000_0000_0000_0067u128;
    let meta = Meta::from_records(
        "/tmp/kraft-combined-logs/".to_string(),
        vec![
            RecordValueType::Other(vec![1, 2, 3]),
            RecordValueType::TopicRecord(TopicRecord { uuid, name: "bar".to_string() }),
            RecordValueType::PartitionRecord(PartitionRecord { partition_id: 0, topic_uuid: uuid }),
        ],
    );
    let correlation = [0x25, 0xfc, 0x97, 0x90];
    let arr = fetch_one_topic(correlation, uuid.to_be_bytes());
    let mut buf = Vec::new();
    let n = process(&arr, &mut buf, &meta).expect("known topic");
    assert_eq!(n, buf.len());
    assert_eq!(buf, fetch_one_topic_response(correlation, uuid.to_be_bytes(), 0x00));
}

#[test]
fn fetch_of_another_version_is_unsupported() {
    let meta = fetch_file();
    let mut arr = FETCH_NO_TOPICS;
    arr[7] = 0x0f; // version 15
    let mut buf = Vec::new();
    process(&arr, &mut buf, &meta).unwrap();
    assert_eq!(
        buf,
        [
            0x00, 0x00, 0x00, 0x11, // len
            0x1a, 0xf6, 0xe0, 0x6e, // correlation_id
            0x00, // _tagged_fields
            0x00, 0x00, 0x00, 0x00, // throttle_time_ms
            0x00, 0x23, // error code 35
            0x02, 0x02, 0x02, 0x02, // session_id
            0x01, // responses count
            0x00, // _tagged_fields
        ]
    );
}

#[test]
fn api_versions_of_another_version_is_unsupported() {
    let meta = fetch_file();
    let arr = [
        0x00, 0x00, 0x00, 0x0e, // len
        0x00, 0x12, // ApiVersions
        0x00, 0x03, // version 3
        0x00, 0x00, 0x00, 0x07, // correlation_id
        0xff, 0xff, // client_id null
        0x00, // _tagged_fields
        0x01, // client_software_name ""
        0x01, // client_software_version ""
        0x00, // _tagged_fields
    ];
    let mut buf = vec![1, 2, 3];
    let n = process(&arr, &mut buf, &meta).unwrap();
    assert_eq!(n, 16);
    assert_eq!(
        buf,
        [
            0x00, 0x00, 0x00, 0x0c, // len
            0x00, 0x00, 0x00, 0x07, // correlation_id
            0x00, 0x23, // UnsupportedVersion
            0x01, // no api_keys
            0x00, 0x00, 0x00, 0x00, // throttle_time_ms
            0x00, // _tagged_fields
        ][..]
    );
}

#[test]
fn request_size_mismatch_is_refused() {
    let meta = fetch_file();
    let mut arr = FETCH_NO_TOPICS.to_vec();
    arr.push(0);
    let mut buf = vec![9];
    assert_eq!(
        process(&arr, &mut buf, &meta),
        Err(ParseError::InvalidSize(0x30, 0x31))
    );
    assert_eq!(buf, vec![9]);
}

#[test]
fn negative_request_size_is_refused() {
    let arr = [0xff, 0xff, 0xff, 0xff, 0x00];
    assert!(matches!(
        requests::Request::try_from(&arr[..]),
        Err(ParseError::SizeTooLarge(_))
    ));
}

#[test]
fn unknown_api_key_has_no_outcome() {
    let meta = fetch_file();
    let mut arr = FETCH_NO_TOPICS;
    arr[5] = 0x02; // api key 2
    let mut buf = Vec::new();
    assert!(try_process(&arr, &mut buf, &meta).is_none());
    assert!(try_process(&[0, 0], &mut buf, &meta).is_none());
    assert!(buf.is_empty());
}

#[test]
fn response_carries_the_correlation_id() {
    let meta = fetch_file();
    let mut buf = Vec::new();
    process(&FETCH_NO_TOPICS, &mut buf, &meta).unwrap();
    assert_eq!(buf[4..8], FETCH_NO_TOPICS[8..12]);
    let size = i32::from_be_bytes([buf[0], buf[1], buf[2], buf[3]]);
    assert_eq!(size as usize, buf.len() - 4);
}

#[test]
fn api_versions_answer_ignores_topics() {
    let arr = [
        0x00, 0x00, 0x00, 0x0e, // len
        0x00, 0x12, // ApiVersions
        0x00, 0x04, // version 4
        0x00, 0x00, 0x00, 0x05, // correlation_id
        0xff, 0xff, // client_id null
        0x00, // _tagged_fields
        0x01, // client_software_name ""
        0x01, // client_software_version ""
        0x00, // _tagged_fields
    ];
    let known = Meta::from_records(
        "/tmp/kraft-combined-logs/".to_string(),
        vec![RecordValueType::TopicRecord(TopicRecord { uuid: 3, name: "t".to_string() })],
    );
    let mut with_topics = Vec::new();
    let mut without = Vec::new();
    process(&arr, &mut with_topics, &known).unwrap();
    process(&arr, &mut without, &fetch_file()).unwrap();
    assert_eq!(with_topics, without);
    assert_eq!(without[4..8], [0x00, 0x00, 0x00, 0x05]);
}

#[test]
fn client_id_of_length_zero_is_empty() {
    let arr = [
        0x00, 0x00, 0x00, 0x0e, // len
        0x00, 0x12, // ApiVersions
        0x00, 0x04, // version 4
        0x00, 0x00, 0x00, 0x05, // correlation_id
        0x00, 0x00, // client_id ""
        0x00, // _tagged_fields
        0x01, // client_software_name ""
        0x01, // client_software_version ""
        0x00, // _tagged_fields
    ];
    let req = requests::Request::try_from(&arr[..]).unwrap();
    assert_eq!(req.header.client_id.str, Some(String::new()));
}

#[test]
fn request_body_by_key() {
    let body = [0x01, 0x01, 0x00];
    assert!(matches!(
        requests::RequestType::checked_parse(18, &body),
        Some(Ok((requests::RequestType::ApiVersions(_), 2)))
    ));
    assert!(requests::RequestType::checked_parse(0, &body).is_none());
    assert!(requests::RequestType::checked_parse(2, &body).is_none());
}

#[test]
fn partition_answer_layout() {
    let p = Partition {
        partition_index: 0x0102_0304,
        error_code: ErrorCode::UnknownTopic,
        high_watermark: 1,
        last_stable_offset: 2,
        log_start_offset: 3,
        aborted_transactions: CompactArray {
            vec: vec![AbortedTransactions { producer_id: 4, first_offset: 5, _tagged_fields: TaggedFields }],
        },
        preferred_read_replica: 6,
        records: CompactRecords {},
        _tagged_fields: TaggedFields,
    };
    let mut buf = vec![0xaa; 60];
    let n = p.write(&mut buf).unwrap();
    let a = 1 + 17; // count byte and one aborted transaction
    assert_eq!(n, 36 + a);
    assert_eq!(buf[0..4], [0x01, 0x02, 0x03, 0x04]);
    assert_eq!(buf[4..6], [0x00, 0x64]);
    assert_eq!(buf[6..14], 1i64.to_be_bytes());
    assert_eq!(buf[14..22], 2i64.to_be_bytes());
    assert_eq!(buf[22..30], 3i64.to_be_bytes());
    assert_eq!(buf[30], 0x02);
    assert_eq!(buf[31..39], 4i64.to_be_bytes());
    assert_eq!(buf[39..47], 5i64.to_be_bytes());
    assert_eq!(buf[47], 0x00);
    assert_eq!(buf[30 + a..34 + a], 6i32.to_be_bytes());
    assert_eq!(buf[34 + a], 0x01);
    assert_eq!(buf[35 + a], 0x00);
    assert!(buf[36 + a..].iter().all(|b| *b == 0xaa));
    assert_eq!(p.encoded_len(), Some(36 + a));
}
