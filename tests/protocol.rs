use kafka_wire::common::ApiType;
use kafka_wire::metadata_log::{LogError, MetadataLogFile};
use kafka_wire::requests::{AllRequests, ApiVersionRequest, DTPRequest, DecodeError};
use kafka_wire::responses::{
    do_api_version_request, do_dtp_request, AllResponses, ApiVersionResponses, HandleError,
};
use kafka_wire::wire::{i16_be, i32_be, read_be128, read_be32, u128_be};

fn version_frame(version: i16, correlation_id: i32) -> Vec<u8> {
    let mut f = vec![0, 0, 0, 8, 0, 18];
    f.extend_from_slice(&version.to_be_bytes());
    f.extend_from_slice(&correlation_id.to_be_bytes());
    f
}

fn dtp_frame(names: &[&[u8]], cursor: u8) -> Vec<u8> {
    let mut f = vec![0, 0, 0, 0, 0, 75, 0, 0, 0, 0, 0, 7];
    f.extend_from_slice(&[0, 9]);
    f.extend_from_slice(b"kafka-cli");
    f.push(0);
    f.push(names.len() as u8 + 1);
    for n in names {
        f.push(n.len() as u8 + 1);
        f.extend_from_slice(n);
        f.push(0);
    }
    f.extend_from_slice(&[0, 0, 0, 100, cursor, 0]);
    f
}

fn log_header(records: u32) -> Vec<u8> {
    let mut f = Vec::new();
    f.extend_from_slice(&0u64.to_be_bytes());
    f.extend_from_slice(&79u32.to_be_bytes());
    f.extend_from_slice(&1u32.to_be_bytes());
    f.push(2);
    f.extend_from_slice(&0xb069457cu32.to_be_bytes());
    f.extend_from_slice(&0u16.to_be_bytes());
    f.extend_from_slice(&0u32.to_be_bytes());
    f.extend_from_slice(&1726045943832u64.to_be_bytes());
    f.extend_from_slice(&1726045943832u64.to_be_bytes());
    f.extend_from_slice(&u64::MAX.to_be_bytes());
    f.extend_from_slice(&u16::MAX.to_be_bytes());
    f.extend_from_slice(&u32::MAX.to_be_bytes());
    f.extend_from_slice(&records.to_be_bytes());
    f
}

fn log_record(f: &mut Vec<u8>, key_length: u8, name: &[u8], uuid: u128) {
    f.extend_from_slice(&[58, 0, 0, 0, key_length, 46]);
    f.extend_from_slice(&[1, 2, 0, name.len() as u8 + 1]);
    f.extend_from_slice(name);
    f.extend_from_slice(&uuid.to_be_bytes());
    f.push(0);
}

fn answer(frame: &[u8]) -> Vec<u8> {
    match AllRequests::from_bytes(frame).unwrap() {
        AllRequests::ApiVersionRequest(r) => {
            AllResponses::ApiVersionResponses(do_api_version_request(r).unwrap()).get_vec()
        }
        AllRequests::DTPRequest(r) => AllResponses::DTPResponse(do_dtp_request(&r).unwrap()).get_vec(),
    }
}

#[test]
fn version_request_end_to_end() {
    let frame = [0u8, 0, 0, 8, 0, 0x12, 0, 4, 0, 0, 0, 7];
    let out = answer(&frame);
    assert_eq!(&out[..13], &[0u8, 0, 0, 0x1A, 0, 0, 0, 7, 0, 0, 3, 0, 0x12]);
    assert_eq!(
        out,
        vec![0u8, 0, 0, 26, 0, 0, 0, 7, 0, 0, 3, 0, 18, 0, 0, 0, 4, 0, 0, 75, 0, 0, 0, 0, 0, 0, 0, 0, 0, 0]
    );
}

#[test]
fn version_answer_is_deterministic_for_every_supported_version() {
    for v in 0..=4i16 {
        let a = answer(&version_frame(v, 1234));
        let b = answer(&version_frame(v, 1234));
        assert_eq!(a, b);
        assert_eq!(&a[4..8], &1234i32.to_be_bytes());
        assert_eq!(&a[11..25], &[0u8, 18, 0, 0, 0, 4, 0, 0, 75, 0, 0, 0, 0, 0]);
    }
}

#[test]
fn unsupported_version_gives_error_35() {
    for v in [5i16, -1, 100, i16::MIN] {
        let out = answer(&version_frame(v, -2));
        assert_eq!(out, vec![0u8, 0, 0, 10, 0xff, 0xff, 0xff, 0xfe, 0x00, 0x23]);
    }
}

#[test]
fn unsupported_version_response_variant() {
    let r = ApiVersionRequest { message_size: 8, request_api_key: 18, request_api_version: 9, correlation_id: 1 };
    assert!(matches!(
        do_api_version_request(r),
        Ok(ApiVersionResponses::UnsupportedVersionResponse(_))
    ));
}

#[test]
fn unknown_key_in_version_negotiation_fails() {
    let r = ApiVersionRequest { message_size: 8, request_api_key: 1, request_api_version: 0, correlation_id: 1 };
    assert!(matches!(do_api_version_request(r), Err(HandleError::UnknownApiKey(1))));
}

#[test]
fn short_frames_are_truncated() {
    let frame = [0u8, 0, 0, 8, 0, 0x12, 0, 4, 0, 0, 0, 7];
    for n in 0..12 {
        assert!(matches!(AllRequests::from_bytes(&frame[..n]), Err(DecodeError::TruncatedFrame)));
    }
    let unknown = [0u8, 0, 0, 8, 0, 99, 0, 0, 0, 0];
    assert!(matches!(AllRequests::from_bytes(&unknown), Err(DecodeError::TruncatedFrame)));
    assert!(matches!(ApiVersionRequest::from_bytes(&frame[..11]), Err(DecodeError::TruncatedFrame)));
}

#[test]
fn unknown_api_key_is_rejected() {
    let frame = [0u8, 0, 0, 8, 0, 99, 0, 0, 0, 0, 0, 1];
    assert!(matches!(AllRequests::from_bytes(&frame), Err(DecodeError::UnsupportedApiKey(99))));
}

#[test]
fn header_fields_decode_signed() {
    let frame = [0xffu8, 0xff, 0xff, 0xff, 0, 18, 0xff, 0xfe, 0x80, 0, 0, 0];
    let r = ApiVersionRequest::from_bytes(&frame).unwrap();
    assert_eq!(r.message_size, -1);
    assert_eq!(r.request_api_key, 18);
    assert_eq!(r.request_api_version, -2);
    assert_eq!(r.correlation_id, i32::MIN);
}

#[test]
fn dtp_request_decodes_all_fields() {
    let frame = dtp_frame(&[b"foo", b"bar"], 0xff);
    let r = DTPRequest::from_bytes(&frame).unwrap();
    assert_eq!(r.request_api_key, 75);
    assert_eq!(r.correlation_id, 7);
    assert_eq!(r.client_length, 9);
    assert_eq!(r.client_content.len(), 9);
    assert_eq!(r.client_content[0], b'k' as i8);
    assert_eq!(r.topic_array_length, 3);
    assert_eq!(r.topics.len(), 2);
    assert_eq!(r.topics[0].name_length, 4);
    assert_eq!(r.topics[0].name, vec![b'f' as i8, b'o' as i8, b'o' as i8]);
    assert_eq!(r.topics[1].name, vec![b'b' as i8, b'a' as i8, b'r' as i8]);
    assert_eq!(r.response_partition_limit, 100);
    assert_eq!(r.cursor, -1);
    assert_eq!(r.tag_buffer_end, 0);
}

#[test]
fn compact_length_zero_is_empty() {
    let mut frame = dtp_frame(&[], 0);
    frame[24] = 2;
    frame.splice(25..25, [0u8, 0]);
    let r = DTPRequest::from_bytes(&frame).unwrap();
    assert_eq!(r.topics.len(), 1);
    assert_eq!(r.topics[0].name_length, 0);
    assert!(r.topics[0].name.is_empty());
    let mut none = dtp_frame(&[], 0);
    none[24] = 0;
    assert_eq!(DTPRequest::from_bytes(&none).unwrap().topics.len(), 0);
}

#[test]
fn truncated_dtp_request() {
    let frame = dtp_frame(&[b"foo"], 0);
    for n in 0..frame.len() {
        assert!(matches!(DTPRequest::from_bytes(&frame[..n]), Err(DecodeError::TruncatedFrame)));
    }
    assert!(DTPRequest::from_bytes(&frame).is_ok());
}

#[test]
fn dtp_answer_bytes() {
    let frame = dtp_frame(&[b"foo", b"bar"], 0xff);
    let out = answer(&frame);
    assert_eq!(out.len(), 45);
    let mut expected = vec![0u8, 0, 0, 41, 0, 0, 0, 7, 0, 0, 0, 0, 0, 2, 0, 3, 4, b'f', b'o', b'o'];
    expected.extend_from_slice(&[0u8; 16]);
    expected.extend_from_slice(&[0, 1, 0, 0, 13, 248, 0, 0xff, 0]);
    assert_eq!(out, expected);
}

#[test]
fn dtp_without_topics_fails() {
    let r = DTPRequest::from_bytes(&dtp_frame(&[], 0)).unwrap();
    assert!(matches!(do_dtp_request(&r), Err(HandleError::NoTopics)));
}

#[test]
fn metadata_log_decodes() {
    let mut log = log_header(1);
    log_record(&mut log, 1, b"foo", 0x0102030405060708090a0b0c0d0e0f10);
    log.push(0);
    let m = MetadataLogFile::from_bytes(&log).unwrap();
    assert_eq!(m.base_offset, 0);
    assert_eq!(m.batch_length, 79);
    assert_eq!(m.magic_byte, 2);
    assert_eq!(m.crc, 0xb069457c);
    assert_eq!(m.base_timestamp, 1726045943832);
    assert_eq!(m.producer_id, u64::MAX);
    assert_eq!(m.producer_epoch, u16::MAX);
    assert_eq!(m.records_length, 1);
    assert_eq!(m.records.len(), 1);
    let t = &m.records[0].topic_records;
    assert_eq!(t.len(), 1);
    assert_eq!(t[0].name_length, 4);
    assert_eq!(t[0].name, b"foo".to_vec());
    assert_eq!(t[0].topic_uuid, 0x0102030405060708090a0b0c0d0e0f10);
    assert_eq!(t[0].type_, 2);
    assert_eq!(m.headers_array_count, 0);
}

#[test]
fn metadata_log_errors() {
    assert!(matches!(MetadataLogFile::from_bytes(&log_header(1)[..60]), Err(LogError::TruncatedLogFile)));
    let mut log = log_header(1);
    log_record(&mut log, 2, b"foo", 1);
    log.push(0);
    assert!(matches!(MetadataLogFile::from_bytes(&log), Err(LogError::UnsupportedKeyEncoding)));
    let mut log = log_header(2);
    log_record(&mut log, 0, b"foo", 1);
    log.push(0);
    assert!(matches!(MetadataLogFile::from_bytes(&log), Err(LogError::TruncatedLogFile)));
}

#[test]
fn log_name_with_length_byte_zero_is_empty() {
    let mut log = log_header(1);
    log.extend_from_slice(&[20, 0, 0, 0, 1, 20, 1, 2, 0, 0]);
    log.extend_from_slice(&5u128.to_be_bytes());
    log.extend_from_slice(&[0, 0]);
    let m = MetadataLogFile::from_bytes(&log).unwrap();
    assert!(m.records[0].topic_records[0].name.is_empty());
    assert_eq!(m.records[0].topic_records[0].topic_uuid, 5);
}

#[test]
fn topic_found_in_log() {
    let u: u128 = 0x00000000_0000_4000_8000_000000000091;
    let mut log = log_header(2);
    log_record(&mut log, 1, b"foo", u);
    log_record(&mut log, 0, b"bar", 22);
    log.push(0);
    let r = DTPRequest::from_bytes(&dtp_frame(&[b"foo"], 0xff)).unwrap();
    let mut resp = do_dtp_request(&r).unwrap();
    assert_eq!(resp.topic_id_in_log(&log).unwrap(), Some(u));
    resp.answer_from_log(&log).unwrap();
    assert_eq!(resp.response_body.topic.topic_id, u.to_be_bytes());
    assert_eq!(resp.response_body.topic.error_code, [0, 0]);
    let out = resp.get_vec();
    assert_eq!(&out[0..4], &[0, 0, 0, 41]);
    assert_eq!(&out[14..16], &[0, 0]);
    assert_eq!(&out[20..36], &u.to_be_bytes());
}

#[test]
fn last_topic_record_wins() {
    let mut log = log_header(3);
    log_record(&mut log, 1, b"foo", 1);
    log_record(&mut log, 0, b"foo", 2);
    log_record(&mut log, 0, b"bar", 3);
    log.push(0);
    let r = DTPRequest::from_bytes(&dtp_frame(&[b"foo"], 0)).unwrap();
    let resp = do_dtp_request(&r).unwrap();
    assert_eq!(resp.topic_id_in_log(&log).unwrap(), Some(2));
    let m = MetadataLogFile::from_bytes(&log).unwrap();
    assert_eq!(resp.helper(&m), 2u128.to_be_bytes());
    assert_eq!(resp.find_topic(&m), Some(2));
}

#[test]
fn topic_absent_gives_zero_id_and_error() {
    let mut log = log_header(1);
    log_record(&mut log, 1, b"bar", 2);
    log.push(0);
    let r = DTPRequest::from_bytes(&dtp_frame(&[b"foo"], 0)).unwrap();
    let mut resp = do_dtp_request(&r).unwrap();
    let m = MetadataLogFile::from_bytes(&log).unwrap();
    assert_eq!(resp.helper(&m), [0u8; 16]);
    resp.answer_from_log(&log).unwrap();
    assert_eq!(resp.response_body.topic.topic_id, [0u8; 16]);
    assert_eq!(resp.response_body.topic.error_code, [0, 3]);
    let mut empty = log_header(0);
    empty.push(0);
    assert_eq!(resp.topic_id_in_log(&empty).unwrap(), None);
}

#[test]
fn bad_log_leaves_response_alone() {
    let r = DTPRequest::from_bytes(&dtp_frame(&[b"foo"], 0)).unwrap();
    let mut resp = do_dtp_request(&r).unwrap();
    let before = resp.get_vec();
    assert!(matches!(resp.answer_from_log(&[1, 2, 3]), Err(LogError::TruncatedLogFile)));
    assert_eq!(resp.get_vec(), before);
}

#[test]
fn dtp_size_field_counts_following_bytes() {
    let name = [b'x'; 17];
    let r = DTPRequest::from_bytes(&dtp_frame(&[&name[..], b"y"], 0)).unwrap();
    let out = do_dtp_request(&r).unwrap().get_vec();
    assert_eq!(out.len(), 59);
    assert_eq!(&out[0..4], &55i32.to_be_bytes());
}

#[test]
fn overlong_topic_name_is_rejected() {
    let mut r = DTPRequest::from_bytes(&dtp_frame(&[b"foo"], 0)).unwrap();
    r.topics[0].name = vec![b'a' as i8; 255];
    assert!(matches!(do_dtp_request(&r), Err(HandleError::TopicNameTooLong)));
    r.topics[0].name = vec![b'a' as i8; 254];
    assert_eq!(do_dtp_request(&r).unwrap().get_vec()[0..4], (38 + 254i32).to_be_bytes());
}

#[test]
fn api_type_from_key() {
    assert!(matches!(ApiType::from_key(18), Some(ApiType::ApiVersions)));
    assert!(matches!(ApiType::from_key(75), Some(ApiType::DTP)));
    assert!(ApiType::from_key(19).is_none());
    assert_eq!(ApiType::DTP.key(), 75);
}

#[test]
fn big_endian_helpers() {
    assert_eq!(i32_be(-2), [0xff, 0xff, 0xff, 0xfe]);
    assert_eq!(i32_be(26), [0, 0, 0, 26]);
    assert_eq!(i16_be(35), [0, 0x23]);
    let u: u128 = 0x0102030405060708090a0b0c0d0e0f10;
    assert_eq!(u128_be(u), u.to_be_bytes());
    assert_eq!(read_be32(&[1, 2, 3, 4, 5], 1), Some(0x02030405));
    assert_eq!(read_be32(&[1, 2, 3, 4, 5], 2), None);
    assert_eq!(read_be128(&u.to_be_bytes(), 0), Some(u));
}
