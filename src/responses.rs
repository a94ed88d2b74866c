//! Response structures, their byte encodings, and the handlers that build them
//! from decoded requests.
use vstd::prelude::*;
use crate::common::{api_type_of, API_VERSIONS_KEY, DTP_KEY};
use crate::metadata_log::{
    lemma_log_names_compact, log_spec, record_shape_ok, LogError, MetadataLogFile, RecordView,
    TopicRecordView,
};
use crate::requests::{header_spec, request_spec, AllRequestsView, ApiVersionRequest, DTPRequest, DTPRequestView};
use crate::wire::{lemma_i32_round_trip, byte_of_i8, i16_be, i16_bytes, i32_be, i32_bytes, i8_to_byte, push_all, u128_be, u128_bytes};

verus! {

/// Error code of a version outside the supported range.
pub const UNSUPPORTED_VERSION: i16 = 35;

/// Error code of a topic that the log does not know.
pub const UNKNOWN_TOPIC: i16 = 3;

/// Highest version accepted by version negotiation.
pub const MAX_SUPPORTED_VERSION: i16 = 4;

/// Authorized-operations bitmask sent with every topic.
pub const TOPIC_AUTHORIZED_OPERATIONS: i32 = 3576;

/// Why a request could not be answered.
#[derive(Debug, Clone, Copy, PartialEq, Eq, Structural)]
pub enum HandleError {
    /// Version negotiation for an API key outside the supported set.
    UnknownApiKey(i16),
    /// A topic-partitions request that names no topic.
    NoTopics,
    /// A topic name too long for the one-byte compact length of the answer.
    TopicNameTooLong,
}

/// How many of a request's topics are answered: the first one only.
pub const MAX_TOPICS_PER_REQUEST: usize = 1;

/// Longest topic name that a compact length byte can announce.
pub const MAX_TOPIC_NAME_LEN: usize = 254;

/// Size of a topic answer without the topic name, not counting the size
/// field itself.
pub const DTP_ANSWER_FIXED_LEN: i32 = 38;

/// Any response this broker sends.
#[derive(Debug, Clone)]
pub enum AllResponses {
    ApiVersionResponses(ApiVersionResponses),
    DTPResponse(DTPResponse),
}

/// The two answers to version negotiation.
#[derive(Debug, Clone, Copy)]
pub enum ApiVersionResponses {
    ApiVersionsResponse(ApiVersionsResponse),
    UnsupportedVersionResponse(UnsupportedVersionResponse),
}

/// One entry of the supported-API table.
#[derive(Debug, Clone, Copy)]
pub struct ApiVersion {
    pub api_key: [u8; 2],
    pub min_version: [u8; 2],
    pub max_version: [u8; 2],
    pub tag_buffer: [u8; 1],
}

/// Version negotiation answer that lists the supported APIs.
#[derive(Debug, Clone, Copy)]
pub struct ApiVersionsResponse {
    pub message: [u8; 4],
    pub correlation_id: [u8; 4],
    pub error_code: [u8; 2],
    pub api_keys_len: [u8; 1],
    pub api_versions: [ApiVersion; 2],
    pub throttle_time_ms: [u8; 4],
    pub tag_buffer_end: [u8; 1],
}

/// The one topic of a topic-partitions answer.
#[derive(Debug, Clone)]
pub struct DTPResponseBodyTopic {
    pub error_code: [u8; 2],
    pub topic_name_length: [u8; 1],
    pub topic_name: Vec<u8>,
    pub topic_id: [u8; 16],
    pub is_internal: [u8; 1],
    pub partitions_array: [u8; 1],
    pub topic_authorized_operations: [u8; 4],
    pub tag_buffer: [u8; 1],
}

/// Body of a topic-partitions answer.
#[derive(Debug, Clone)]
pub struct DTPResponseBody {
    pub throttle_time: [u8; 4],
    pub topic_arr_length: [u8; 1],
    pub topic: DTPResponseBodyTopic,
    pub next_cursor: [u8; 1],
    pub tag_buffer: [u8; 1],
}

/// A topic-partitions answer.
#[derive(Debug, Clone)]
pub struct DTPResponse {
    pub message: [u8; 4],
    pub correlation_id: [u8; 4],
    pub tag_buffer: [u8; 1],
    pub response_body: DTPResponseBody,
}

/// Version negotiation answer for an unsupported version: header and error code.
#[derive(Debug, Clone, Copy)]
pub struct UnsupportedVersionResponse {
    pub message: [u8; 4],
    pub correlation_id: [u8; 4],
    pub error_code: [u8; 2],
}

impl ApiVersion {
    /// The encoded entry.
    pub open spec fn wire(self) -> Seq<u8> {
        self.api_key@ + self.min_version@ + self.max_version@ + self.tag_buffer@
    }
}

impl ApiVersionsResponse {
    /// The encoded response: every field in declaration order.
    pub open spec fn wire(self) -> Seq<u8> {
        self.message@ + self.correlation_id@ + self.error_code@ + self.api_keys_len@
            + self.api_versions@[0].wire() + self.api_versions@[1].wire() + self.throttle_time_ms@
            + self.tag_buffer_end@
    }
}

impl UnsupportedVersionResponse {
    /// The encoded response: every field in declaration order.
    pub open spec fn wire(self) -> Seq<u8> {
        self.message@ + self.correlation_id@ + self.error_code@
    }
}

impl ApiVersionResponses {
    /// The encoded response.
    pub open spec fn wire(self) -> Seq<u8> {
        match self {
            ApiVersionResponses::ApiVersionsResponse(r) => r.wire(),
            ApiVersionResponses::UnsupportedVersionResponse(r) => r.wire(),
        }
    }
}

impl DTPResponseBodyTopic {
    /// The encoded topic entry.
    pub open spec fn wire(&self) -> Seq<u8> {
        self.error_code@ + self.topic_name_length@ + self.topic_name@ + self.topic_id@
            + self.is_internal@ + self.partitions_array@ + self.topic_authorized_operations@
            + self.tag_buffer@
    }
}

impl DTPResponse {
    /// The encoded response: header, body start, topic, body end.
    pub open spec fn wire(&self) -> Seq<u8> {
        self.message@ + self.correlation_id@ + self.tag_buffer@ + self.response_body.throttle_time@
            + self.response_body.topic_arr_length@ + self.response_body.topic.wire()
            + self.response_body.next_cursor@ + self.response_body.tag_buffer@
    }
}

impl AllResponses {
    /// The encoded response.
    pub open spec fn wire(&self) -> Seq<u8> {
        match self {
            AllResponses::ApiVersionResponses(r) => r.wire(),
            AllResponses::DTPResponse(r) => r.wire(),
        }
    }

    /// Encodes the response.
    pub fn get_vec(self) -> (r: Vec<u8>)
        ensures
            r@ == self.wire(),
    {
        match self {
            AllResponses::ApiVersionResponses(resp) => resp.get_vec(),
            AllResponses::DTPResponse(resp) => resp.get_vec(),
        }
    }
}

impl ApiVersionResponses {
    /// Encodes the response.
    pub fn get_vec(self) -> (r: Vec<u8>)
        ensures
            r@ == self.wire(),
    {
        match self {
            ApiVersionResponses::ApiVersionsResponse(resp) => resp.get_vec(),
            ApiVersionResponses::UnsupportedVersionResponse(resp) => resp.get_vec(),
        }
    }
}

impl ApiVersionsResponse {
    /// Encodes the response.
    pub fn get_vec(self) -> (r: Vec<u8>)
        ensures
            r@ == self.wire(),
    {
        let mut buf: Vec<u8> = Vec::new();
        push_all(&mut buf, &self.message);
        push_all(&mut buf, &self.correlation_id);
        push_all(&mut buf, &self.error_code);
        push_all(&mut buf, &self.api_keys_len);
        let mut i: usize = 0;
        while i < 2
            invariant
                i <= 2,
                buf@ == self.message@ + self.correlation_id@ + self.error_code@ + self.api_keys_len@
                    + (if i >= 1 { self.api_versions@[0].wire() } else { Seq::empty() })
                    + (if i >= 2 { self.api_versions@[1].wire() } else { Seq::empty() }),
            decreases 2 - i,
        {
            let version = &self.api_versions[i];
            push_all(&mut buf, &version.api_key);
            push_all(&mut buf, &version.min_version);
            push_all(&mut buf, &version.max_version);
            push_all(&mut buf, &version.tag_buffer);
            i = i + 1;
            assert(buf@ =~= self.message@ + self.correlation_id@ + self.error_code@ + self.api_keys_len@
                + (if i >= 1 { self.api_versions@[0].wire() } else { Seq::empty() })
                + (if i >= 2 { self.api_versions@[1].wire() } else { Seq::empty() }));
        }
        push_all(&mut buf, &self.throttle_time_ms);
        push_all(&mut buf, &self.tag_buffer_end);
        assert(buf@ =~= self.wire());
        buf
    }
}

impl UnsupportedVersionResponse {
    /// Encodes the response.
    pub fn get_vec(self) -> (r: Vec<u8>)
        ensures
            r@ == self.wire(),
    {
        let mut buf: Vec<u8> = Vec::new();
        push_all(&mut buf, &self.message);
        push_all(&mut buf, &self.correlation_id);
        push_all(&mut buf, &self.error_code);
        assert(buf@ =~= self.wire());
        buf
    }
}

impl DTPResponse {
    /// Encodes the response.
    pub fn get_vec(&self) -> (r: Vec<u8>)
        ensures
            r@ == self.wire(),
    {
        let mut buf: Vec<u8> = Vec::new();
        let body = &self.response_body;
        let topic = &self.response_body.topic;
        push_all(&mut buf, &self.message);
        push_all(&mut buf, &self.correlation_id);
        push_all(&mut buf, &self.tag_buffer);
        push_all(&mut buf, &body.throttle_time);
        push_all(&mut buf, &body.topic_arr_length);
        push_all(&mut buf, &topic.error_code);
        push_all(&mut buf, &topic.topic_name_length);
        push_all(&mut buf, topic.topic_name.as_slice());
        push_all(&mut buf, &topic.topic_id);
        push_all(&mut buf, &topic.is_internal);
        push_all(&mut buf, &topic.partitions_array);
        push_all(&mut buf, &topic.topic_authorized_operations);
        push_all(&mut buf, &topic.tag_buffer);
        push_all(&mut buf, &body.next_cursor);
        push_all(&mut buf, &body.tag_buffer);
        assert(buf@ =~= self.wire());
        buf
    }
}

/// Bytes of a version negotiation answer that lists the two supported APIs:
/// size 26, the correlation id, error 0, a compact count of three (two
/// entries), then key 18 with versions 0 to 4 and key 75 with version 0, a
/// zero throttle time and a zero tag byte.
pub open spec fn api_versions_bytes(c: i32) -> Seq<u8> {
    seq![0u8, 0, 0, 26] + i32_bytes(c) + seq![0u8, 0, 3] + seq![0u8, 18, 0, 0, 0, 4, 0] + seq![
        0u8,
        75,
        0,
        0,
        0,
        0,
        0,
    ] + seq![0u8, 0, 0, 0, 0]
}

/// Bytes of the answer to an unsupported version: size 10, the correlation id
/// and error code 35.
pub open spec fn unsupported_version_bytes(c: i32) -> Seq<u8> {
    seq![0u8, 0, 0, 10] + i32_bytes(c) + seq![0u8, 35]
}

/// Whether version negotiation accepts `v`.
pub open spec fn version_supported(v: i16) -> bool {
    0 <= v <= MAX_SUPPORTED_VERSION
}

/// One entry of the supported-API table.
fn api_version_entry(key: i16, min: i16, max: i16) -> (r: ApiVersion)
    ensures
        r.wire() == i16_bytes(key) + i16_bytes(min) + i16_bytes(max) + seq![0u8],
{
    let r = ApiVersion {
        api_key: i16_be(key),
        min_version: i16_be(min),
        max_version: i16_be(max),
        tag_buffer: [0u8],
    };
    assert(r.tag_buffer@ =~= seq![0u8]);
    r
}

/// Answers version negotiation: the supported-API table when the version is
/// in range, the unsupported-version answer otherwise; an API key outside
/// the supported set is an error.
pub fn do_api_version_request(request: ApiVersionRequest) -> (r: Result<ApiVersionResponses, HandleError>)
    ensures
        r is Err <==> api_type_of(request.request_api_key) is None,
        r matches Err(e) ==> e == HandleError::UnknownApiKey(request.request_api_key),
        r matches Ok(resp) ==> (resp is ApiVersionsResponse <==> version_supported(request.request_api_version)),
        r matches Ok(resp) ==> resp.wire() == if version_supported(request.request_api_version) {
            api_versions_bytes(request.correlation_id)
        } else {
            unsupported_version_bytes(request.correlation_id)
        },
{
    if request.request_api_key != API_VERSIONS_KEY && request.request_api_key != DTP_KEY {
        return Err(HandleError::UnknownApiKey(request.request_api_key));
    }
    let version = request.request_api_version;
    let correlation_id = request.correlation_id;
    if version >= 0 && version <= MAX_SUPPORTED_VERSION {
        let resp = ApiVersionsResponse {
            message: i32_be(26),
            correlation_id: i32_be(correlation_id),
            error_code: i16_be(0),
            api_keys_len: [3u8],
            api_versions: [
                api_version_entry(API_VERSIONS_KEY, 0, MAX_SUPPORTED_VERSION),
                api_version_entry(DTP_KEY, 0, 0),
            ],
            throttle_time_ms: i32_be(0),
            tag_buffer_end: [0u8],
        };
        assert(resp.wire() =~= api_versions_bytes(correlation_id));
        Ok(ApiVersionResponses::ApiVersionsResponse(resp))
    } else {
        let resp = UnsupportedVersionResponse {
            message: i32_be(10),
            correlation_id: i32_be(correlation_id),
            error_code: i16_be(UNSUPPORTED_VERSION),
        };
        assert(resp.wire() =~= unsupported_version_bytes(correlation_id));
        Ok(ApiVersionResponses::UnsupportedVersionResponse(resp))
    }
}

/// Names as bytes.
pub open spec fn unsigned_bytes(s: Seq<i8>) -> Seq<u8> {
    s.map_values(|x: i8| byte_of_i8(x))
}

/// The all-zero identifier that stands for a topic the log does not hold.
pub open spec fn zero_id() -> Seq<u8> {
    u128_bytes(0)
}

/// Bytes of the answer to a topic-partitions request for its first topic:
/// the size of what follows the size field, the correlation id, a zero tag
/// byte and throttle time, a compact count of one topic; for that topic the
/// given error code, its name, the given identifier, not internal, an empty
/// partition array and the authorized-operations mask; the cursor echoed and
/// a zero tag byte.
pub open spec fn dtp_answer_bytes(d: DTPRequestView, error_code: Seq<u8>, id: Seq<u8>) -> Seq<u8> {
    let t = d.topics[0];
    i32_bytes((DTP_ANSWER_FIXED_LEN + t.name.len()) as i32) + i32_bytes(d.header.correlation_id) + seq![
        0u8,
        0,
        0,
        0,
        0,
        2,
    ] + error_code + seq![byte_of_i8(t.name_length)] + unsigned_bytes(t.name) + id + seq![
        0u8,
        1,
        0,
        0,
        13,
        248,
        0,
    ] + seq![byte_of_i8(d.cursor), 0u8]
}

/// Answers a topic-partitions request for its first topic, with the topic
/// not yet looked up (error code 3, all-zero identifier). A request that
/// names no topic, or whose first name is longer than a compact length byte
/// can announce, is an error.
pub fn do_dtp_request(request: &DTPRequest) -> (r: Result<DTPResponse, HandleError>)
    ensures
        r is Err <==> request@.topics.len() == 0 || request@.topics[0].name.len() > MAX_TOPIC_NAME_LEN,
        r matches Err(e) ==> e == if request@.topics.len() == 0 {
            HandleError::NoTopics
        } else {
            HandleError::TopicNameTooLong
        },
        r matches Ok(resp) ==> resp.wire() == dtp_answer_bytes(request@, i16_bytes(UNKNOWN_TOPIC), zero_id()),
        r matches Ok(resp) ==> resp.response_body.topic.topic_name@ == unsigned_bytes(request@.topics[0].name),
{
    if request.topics.len() < MAX_TOPICS_PER_REQUEST {
        return Err(HandleError::NoTopics);
    }
    let first = &request.topics[0];
    if first.name.len() > MAX_TOPIC_NAME_LEN {
        return Err(HandleError::TopicNameTooLong);
    }
    let mut name: Vec<u8> = Vec::new();
    let mut i: usize = 0;
    while i < first.name.len()
        invariant
            i <= first.name@.len(),
            name@ == unsigned_bytes(first.name@.subrange(0, i as int)),
        decreases first.name@.len() - i,
    {
        name.push(i8_to_byte(first.name[i]));
        i = i + 1;
        assert(name@ =~= unsigned_bytes(first.name@.subrange(0, i as int)));
    }
    assert(first.name@.subrange(0, first.name@.len() as int) =~= first.name@);
    let size: i32 = DTP_ANSWER_FIXED_LEN + first.name.len() as i32;
    let resp = DTPResponse {
        message: i32_be(size),
        correlation_id: i32_be(request.correlation_id),
        tag_buffer: [0u8],
        response_body: DTPResponseBody {
            throttle_time: i32_be(0),
            topic_arr_length: [(MAX_TOPICS_PER_REQUEST + 1) as u8],
            topic: DTPResponseBodyTopic {
                error_code: i16_be(UNKNOWN_TOPIC),
                topic_name_length: [i8_to_byte(first.name_length)],
                topic_name: name,
                topic_id: u128_be(0),
                is_internal: [0u8],
                partitions_array: [1u8],
                topic_authorized_operations: i32_be(TOPIC_AUTHORIZED_OPERATIONS),
                tag_buffer: [0u8],
            },
            next_cursor: [i8_to_byte(request.cursor)],
            tag_buffer: [0u8],
        },
    };
    assert(request@.topics[0] == first@);
    assert(resp.wire() =~= dtp_answer_bytes(request@, i16_bytes(UNKNOWN_TOPIC), zero_id()));
    Ok(resp)
}

/// The identifier of the last of `ts` whose name is `name`.
pub open spec fn last_match_in_topics(ts: Seq<TopicRecordView>, name: Seq<u8>) -> Option<u128>
    decreases ts.len(),
{
    if ts.len() == 0 {
        None
    } else if ts.last().name == name {
        Some(ts.last().topic_uuid)
    } else {
        last_match_in_topics(ts.drop_last(), name)
    }
}

/// The identifier of the last topic record named `name`, visiting records in
/// order and each record's topic records in order; `None` when no topic
/// record carries that name.
pub open spec fn find_topic_uuid(recs: Seq<RecordView>, name: Seq<u8>) -> Option<u128>
    decreases recs.len(),
{
    if recs.len() == 0 {
        None
    } else {
        match last_match_in_topics(recs.last().topic_records, name) {
            Some(u) => Some(u),
            None => find_topic_uuid(recs.drop_last(), name),
        }
    }
}

/// The identifier bytes that a lookup yields: the found identifier, or the
/// all-zero identifier for a topic the log does not hold.
pub open spec fn resolved_topic_id(found: Option<u128>) -> Seq<u8> {
    match found {
        Some(u) => u128_bytes(u),
        None => zero_id(),
    }
}

/// Error code bytes of a lookup: 0 for a found topic, 3 otherwise.
pub open spec fn lookup_error_code(found: Option<u128>) -> Seq<u8> {
    if found is Some { i16_bytes(0) } else { i16_bytes(UNKNOWN_TOPIC) }
}

/// Whether two byte strings are equal.
fn bytes_equal(a: &[u8], b: &[u8]) -> (r: bool)
    ensures
        r == (a@ == b@),
{
    if a.len() != b.len() {
        return false;
    }
    let mut i: usize = 0;
    while i < a.len()
        invariant
            i <= a@.len(),
            a@.len() == b@.len(),
            a@.subrange(0, i as int) == b@.subrange(0, i as int),
        decreases a@.len() - i,
    {
        if a[i] != b[i] {
            assert(a@[i as int] != b@[i as int]);
            return false;
        }
        assert(a@.subrange(0, i + 1) =~= a@.subrange(0, i as int).push(a@[i as int]));
        assert(b@.subrange(0, i + 1) =~= b@.subrange(0, i as int).push(b@[i as int]));
        i = i + 1;
    }
    assert(a@.subrange(0, a@.len() as int) =~= a@);
    assert(b@.subrange(0, b@.len() as int) =~= b@);
    true
}

impl DTPResponse {
    /// Looks the answer's topic up in a decoded log: the identifier of the
    /// last topic record that carries the topic's name, if any does.
    pub fn find_topic(&self, log_file: &MetadataLogFile) -> (r: Option<u128>)
        ensures
            r == find_topic_uuid(log_file@.records, self.response_body.topic.topic_name@),
    {
        let name = self.response_body.topic.topic_name.as_slice();
        let ghost target = name@;
        let mut res: Option<u128> = None;
        let mut i: usize = 0;
        while i < log_file.records.len()
            invariant
                name@ == target,
                target == self.response_body.topic.topic_name@,
                i <= log_file.records@.len(),
                res == find_topic_uuid(log_file@.records.take(i as int), target),
            decreases log_file.records@.len() - i,
        {
            let record = &log_file.records[i];
            let ghost before = res;
            let ghost ts = record@.topic_records;
            let mut j: usize = 0;
            while j < record.topic_records.len()
                invariant
                    name@ == target,
                    ts == record@.topic_records,
                    j <= record.topic_records@.len(),
                    res == match last_match_in_topics(ts.take(j as int), target) {
                        Some(u) => Some(u),
                        None => before,
                    },
                decreases record.topic_records@.len() - j,
            {
                let tr = &record.topic_records[j];
                proof {
                    assert(ts.take(j + 1).drop_last() =~= ts.take(j as int));
                    assert(ts.take(j + 1).last() == tr@);
                }
                if bytes_equal(tr.name.as_slice(), name) {
                    res = Some(tr.topic_uuid);
                }
                j = j + 1;
            }
            proof {
                assert(ts.take(ts.len() as int) =~= ts);
                let recs = log_file@.records.take(i + 1);
                assert(recs.drop_last() =~= log_file@.records.take(i as int));
                assert(recs.last() == record@);
            }
            i = i + 1;
        }
        assert(log_file@.records.take(i as int) =~= log_file@.records);
        res
    }

    /// The identifier bytes of the answer's topic in a decoded log: those of
    /// the last topic record carrying its name, or all zeros when none does.
    pub fn helper(&self, log_file: &MetadataLogFile) -> (r: [u8; 16])
        ensures
            r@ == resolved_topic_id(find_topic_uuid(log_file@.records, self.response_body.topic.topic_name@)),
    {
        match self.find_topic(log_file) {
            Some(u) => u128_be(u),
            None => u128_be(0),
        }
    }

    /// Looks the answer's topic up in the bytes of a metadata log.
    pub fn topic_id_in_log(&self, log: &[u8]) -> (r: Result<Option<u128>, LogError>)
        ensures
            r matches Err(e) ==> log_spec(log@) == Err::<crate::metadata_log::MetadataLogFileView, LogError>(e),
            r is Ok <==> log_spec(log@) is Ok,
            r matches Ok(found) ==> found == find_topic_uuid(
                log_spec(log@).unwrap().records,
                self.response_body.topic.topic_name@,
            ),
    {
        let log_file = MetadataLogFile::from_bytes(log)?;
        Ok(self.find_topic(&log_file))
    }

    /// Records the outcome of a lookup: the found identifier with error code
    /// 0, or the all-zero identifier with error code 3.
    pub fn set_topic_id(&mut self, found: Option<u128>)
        ensures
            final(self).response_body.topic.topic_id@ == resolved_topic_id(found),
            final(self).response_body.topic.error_code@ == lookup_error_code(found),
            final(self).response_body.topic.topic_name == old(self).response_body.topic.topic_name,
            final(self).wire() == old(self).message@ + old(self).correlation_id@ + old(self).tag_buffer@
                + old(self).response_body.throttle_time@ + old(self).response_body.topic_arr_length@
                + lookup_error_code(found) + old(self).response_body.topic.topic_name_length@
                + old(self).response_body.topic.topic_name@ + resolved_topic_id(found)
                + old(self).response_body.topic.is_internal@
                + old(self).response_body.topic.partitions_array@
                + old(self).response_body.topic.topic_authorized_operations@
                + old(self).response_body.topic.tag_buffer@ + old(self).response_body.next_cursor@
                + old(self).response_body.tag_buffer@,
    {
        match found {
            Some(u) => {
                self.response_body.topic.error_code = i16_be(0);
                self.response_body.topic.topic_id = u128_be(u);
            },
            None => {
                self.response_body.topic.error_code = i16_be(UNKNOWN_TOPIC);
                self.response_body.topic.topic_id = u128_be(0);
            },
        }
    }

    /// Looks the answer's topic up in the bytes of a metadata log and records
    /// the outcome, as `set_topic_id` does.
    pub fn answer_from_log(&mut self, log: &[u8]) -> (r: Result<(), LogError>)
        ensures
            r matches Err(e) ==> log_spec(log@) == Err::<crate::metadata_log::MetadataLogFileView, LogError>(e)
                && *final(self) == *old(self),
            r is Ok <==> log_spec(log@) is Ok,
            r is Ok ==> ({
                let found = find_topic_uuid(log_spec(log@).unwrap().records, old(self).response_body.topic.topic_name@);
                final(self).wire() == old(self).message@ + old(self).correlation_id@ + old(self).tag_buffer@
                    + old(self).response_body.throttle_time@ + old(self).response_body.topic_arr_length@
                    + lookup_error_code(found) + old(self).response_body.topic.topic_name_length@
                    + old(self).response_body.topic.topic_name@ + resolved_topic_id(found)
                    + old(self).response_body.topic.is_internal@
                    + old(self).response_body.topic.partitions_array@
                    + old(self).response_body.topic.topic_authorized_operations@
                    + old(self).response_body.topic.tag_buffer@ + old(self).response_body.next_cursor@
                    + old(self).response_body.tag_buffer@
            }),
    {
        let found = self.topic_id_in_log(log)?;
        self.set_topic_id(found);
        Ok(())
    }
}

/// A version negotiation frame with a supported key and a version from 0 to
/// 4 is answered with the same bytes every time: size 26, the frame's own
/// correlation id bytes, error 0, then the two supported APIs in their fixed
/// order (key 18 with versions 0 to 4, then key 75 with version 0).
pub proof fn lemma_api_versions_answer(frame: Seq<u8>)
    requires
        request_spec(frame) matches Ok(AllRequestsView::ApiVersionRequest(h)) && version_supported(
            h.request_api_version,
        ),
    ensures
        ({
            let h = header_spec(frame).unwrap();
            &&& api_type_of(h.request_api_key) is Some
            &&& api_versions_bytes(h.correlation_id) == seq![0u8, 0, 0, 26] + frame.subrange(8, 12)
                + seq![0u8, 0, 3, 0, 18, 0, 0, 0, 4, 0, 0, 75, 0, 0, 0, 0, 0, 0, 0, 0, 0, 0]
        }),
{
    lemma_i32_round_trip(frame, 8);
    let h = header_spec(frame).unwrap();
    assert(api_versions_bytes(h.correlation_id) =~= seq![0u8, 0, 0, 26] + frame.subrange(8, 12)
        + seq![0u8, 0, 3, 0, 18, 0, 0, 0, 4, 0, 0, 75, 0, 0, 0, 0, 0, 0, 0, 0, 0, 0]);
}

/// A version negotiation request whose version lies outside 0 to 4 is
/// answered with ten bytes: size 10, the correlation id, and error code
/// 0x00 0x23.
pub proof fn lemma_unsupported_version_answer(request: ApiVersionRequest)
    requires
        !version_supported(request.request_api_version),
    ensures
        unsupported_version_bytes(request.correlation_id).len() == 10,
        unsupported_version_bytes(request.correlation_id).subrange(0, 4) == seq![0u8, 0, 0, 10],
        unsupported_version_bytes(request.correlation_id).subrange(4, 8) == i32_bytes(request.correlation_id),
        unsupported_version_bytes(request.correlation_id).subrange(8, 10) == seq![0x00u8, 0x23],
{
    let b = unsupported_version_bytes(request.correlation_id);
    assert(b.subrange(0, 4) =~= seq![0u8, 0, 0, 10]);
    assert(b.subrange(4, 8) =~= i32_bytes(request.correlation_id));
    assert(b.subrange(8, 10) =~= seq![0x00u8, 0x23]);
}

/// Whether every record carries one topic record, as decoded logs do.
pub open spec fn all_shaped(recs: Seq<RecordView>) -> bool {
    forall|k: int| 0 <= k < recs.len() ==> #[trigger] record_shape_ok(recs[k])
}

/// Lookup in records of one topic record each: the last record decides when
/// its topic record carries the name, and the records before it otherwise.
proof fn lemma_find_step(recs: Seq<RecordView>, name: Seq<u8>)
    requires
        all_shaped(recs),
        recs.len() > 0,
    ensures
        find_topic_uuid(recs, name) == if recs.last().topic_records[0].name == name {
            Some(recs.last().topic_records[0].topic_uuid)
        } else {
            find_topic_uuid(recs.drop_last(), name)
        },
        all_shaped(recs.drop_last()),
{
    let ts = recs.last().topic_records;
    assert(record_shape_ok(recs[recs.len() - 1]));
    assert(recs.last() == recs[recs.len() - 1]);
    assert(ts.len() == 1);
    assert(ts.last() == ts[0]);
    assert(ts.drop_last().len() == 0);
    assert(last_match_in_topics(ts.drop_last(), name) is None);
    assert(last_match_in_topics(ts, name) == if ts[0].name == name {
        Some(ts[0].topic_uuid)
    } else {
        None::<u128>
    });
    assert forall|k: int| 0 <= k < recs.drop_last().len() implies #[trigger] record_shape_ok(
        recs.drop_last()[k],
    ) by {
        assert(recs.drop_last()[k] == recs[k]);
        assert(record_shape_ok(recs[k]));
    }
}

/// The last record whose topic carries the name gives the identifier.
proof fn lemma_find_last_match(recs: Seq<RecordView>, name: Seq<u8>, i: int)
    requires
        all_shaped(recs),
        0 <= i < recs.len(),
        recs[i].topic_records[0].name == name,
        forall|j: int| i < j < recs.len() ==> (#[trigger] recs[j]).topic_records[0].name != name,
    ensures
        find_topic_uuid(recs, name) == Some(recs[i].topic_records[0].topic_uuid),
    decreases recs.len(),
{
    lemma_find_step(recs, name);
    if i < recs.len() - 1 {
        assert(recs[recs.len() - 1].topic_records[0].name != name);
        let d = recs.drop_last();
        assert(d[i] == recs[i]);
        assert forall|j: int| i < j < d.len() implies (#[trigger] d[j]).topic_records[0].name != name by {
            assert(d[j] == recs[j]);
        }
        lemma_find_last_match(d, name, i);
    }
}

/// Where no record's topic carries the name, nothing is found.
proof fn lemma_find_no_match(recs: Seq<RecordView>, name: Seq<u8>)
    requires
        all_shaped(recs),
        forall|j: int| 0 <= j < recs.len() ==> (#[trigger] recs[j]).topic_records[0].name != name,
    ensures
        find_topic_uuid(recs, name) is None,
    decreases recs.len(),
{
    if recs.len() > 0 {
        lemma_find_step(recs, name);
        assert(recs[recs.len() - 1].topic_records[0].name != name);
        let d = recs.drop_last();
        assert forall|j: int| 0 <= j < d.len() implies (#[trigger] d[j]).topic_records[0].name != name by {
            assert(d[j] == recs[j]);
        }
        lemma_find_no_match(d, name);
    }
}

/// Looking a topic name up in a decoded log: when record `i` carries the
/// name with identifier `u` and no later record carries it, the answer holds
/// the sixteen big-endian bytes of `u` with error code 0; when no record
/// carries the name, it holds the all-zero identifier with error code 3.
pub proof fn lemma_topic_lookup(log: Seq<u8>, name: Seq<u8>, i: int, u: u128)
    requires
        log_spec(log) is Ok,
    ensures
        ({
            let recs = log_spec(log).unwrap().records;
            let found = find_topic_uuid(recs, name);
            &&& (0 <= i < recs.len() && recs[i].topic_records[0].name == name
                && recs[i].topic_records[0].topic_uuid == u && forall|j: int|
                i < j < recs.len() ==> (#[trigger] recs[j]).topic_records[0].name != name) ==> found
                == Some(u) && resolved_topic_id(found) == u128_bytes(u) && lookup_error_code(found)
                == seq![0u8, 0]
            &&& (forall|j: int| 0 <= j < recs.len() ==> (#[trigger] recs[j]).topic_records[0].name != name)
                ==> found is None && resolved_topic_id(found) == zero_id() && lookup_error_code(found)
                == seq![0u8, 3]
        }),
{
    let recs = log_spec(log).unwrap().records;
    lemma_log_names_compact(log);
    assert(all_shaped(recs));
    assert(i16_bytes(0) =~= seq![0u8, 0]);
    assert(i16_bytes(UNKNOWN_TOPIC) =~= seq![0u8, 3]);
    if 0 <= i < recs.len() && recs[i].topic_records[0].name == name && forall|j: int|
        i < j < recs.len() ==> (#[trigger] recs[j]).topic_records[0].name != name {
        lemma_find_last_match(recs, name, i);
    }
    if forall|j: int| 0 <= j < recs.len() ==> (#[trigger] recs[j]).topic_records[0].name != name {
        lemma_find_no_match(recs, name);
    }
}

} // verus!
