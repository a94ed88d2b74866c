//! Decoding of request frames.
use vstd::prelude::*;
use crate::common::{api_type_of, ApiType};
use crate::wire::{
    be16_at, be32_at, byte_of_i8, compact_count, compact_len, read_be16, read_be32, read_u8, signed16,
    signed32, signed8, to_i16, to_i32, to_i8,
};

verus! {

/// Why a frame could not be decoded.
#[derive(Debug, Clone, Copy, PartialEq, Eq, Structural)]
pub enum DecodeError {
    /// The frame ended before a field could be read.
    TruncatedFrame,
    /// The frame names an API key outside the supported set.
    UnsupportedApiKey(i16),
}

/// A decoded request of either supported kind.
pub enum AllRequests {
    ApiVersionRequest(ApiVersionRequest),
    DTPRequest(DTPRequest),
}

/// A version negotiation request: the common header alone.
#[derive(Debug, Clone, Copy, PartialEq, Eq, Structural)]
pub struct ApiVersionRequest {
    pub message_size: i32,
    pub request_api_key: i16,
    pub request_api_version: i16,
    pub correlation_id: i32,
}

/// One topic named by a topic-partitions request.
#[derive(Debug)]
pub struct DTPTopic {
    pub name_length: i8,
    pub name: Vec<i8>,
    pub tag_buffer: i8,
}

/// A topic-partitions lookup request.
pub struct DTPRequest {
    pub message_size: i32,
    pub request_api_key: i16,
    pub request_api_version: i16,
    pub correlation_id: i32,
    pub client_length: i16,
    pub client_content: Vec<i8>,
    pub tag_buffer: i8,
    pub topic_array_length: i8,
    pub topics: Vec<DTPTopic>,
    pub response_partition_limit: i32,
    pub cursor: i8,
    pub tag_buffer_end: i8,
}

/// What a `DTPTopic` holds.
pub struct DTPTopicView {
    pub name_length: i8,
    pub name: Seq<i8>,
    pub tag_buffer: i8,
}

/// What a `DTPRequest` holds.
pub struct DTPRequestView {
    pub header: ApiVersionRequest,
    pub client_length: i16,
    pub client_content: Seq<i8>,
    pub tag_buffer: i8,
    pub topic_array_length: i8,
    pub topics: Seq<DTPTopicView>,
    pub response_partition_limit: i32,
    pub cursor: i8,
    pub tag_buffer_end: i8,
}

impl View for DTPTopic {
    type V = DTPTopicView;

    open spec fn view(&self) -> DTPTopicView {
        DTPTopicView { name_length: self.name_length, name: self.name@, tag_buffer: self.tag_buffer }
    }
}

impl View for DTPRequest {
    type V = DTPRequestView;

    open spec fn view(&self) -> DTPRequestView {
        DTPRequestView {
            header: ApiVersionRequest {
                message_size: self.message_size,
                request_api_key: self.request_api_key,
                request_api_version: self.request_api_version,
                correlation_id: self.correlation_id,
            },
            client_length: self.client_length,
            client_content: self.client_content@,
            tag_buffer: self.tag_buffer,
            topic_array_length: self.topic_array_length,
            topics: self.topics@.map_values(|t: DTPTopic| t@),
            response_partition_limit: self.response_partition_limit,
            cursor: self.cursor,
            tag_buffer_end: self.tag_buffer_end,
        }
    }
}

/// Bytes read as signed bytes.
pub open spec fn signed_bytes(s: Seq<u8>) -> Seq<i8> {
    s.map_values(|b: u8| signed8(b))
}

/// The fixed header that every request starts with: size, API key, API version
/// and correlation id, twelve bytes in all.
pub open spec fn header_spec(s: Seq<u8>) -> Option<ApiVersionRequest> {
    if s.len() < 12 {
        None
    } else {
        Some(
            ApiVersionRequest {
                message_size: signed32(be32_at(s, 0)) as i32,
                request_api_key: signed16(be16_at(s, 4)) as i16,
                request_api_version: signed16(be16_at(s, 6)) as i16,
                correlation_id: signed32(be32_at(s, 8)) as i32,
            },
        )
    }
}

/// One topic entry at `p`: compact name length, name, tag byte; with the
/// position after it.
pub open spec fn topic_spec(s: Seq<u8>, p: int) -> Option<(DTPTopicView, int)> {
    if p < 0 || p + 1 > s.len() {
        None
    } else {
        let n = compact_count(s[p]);
        if p + 1 + n + 1 > s.len() {
            None
        } else {
            Some(
                (
                    DTPTopicView {
                        name_length: signed8(s[p]),
                        name: signed_bytes(s.subrange(p + 1, p + 1 + n)),
                        tag_buffer: signed8(s[p + 1 + n]),
                    },
                    p + 1 + n + 1,
                ),
            )
        }
    }
}

/// The first `k` topic entries from `p`, with the position after them.
pub open spec fn topics_spec(s: Seq<u8>, p: int, k: nat) -> Option<(Seq<DTPTopicView>, int)>
    decreases k,
{
    if k == 0 {
        Some((Seq::empty(), p))
    } else {
        match topics_spec(s, p, (k - 1) as nat) {
            Some((ts, q)) => match topic_spec(s, q) {
                Some((t, e)) => Some((ts.push(t), e)),
                None => None,
            },
            None => None,
        }
    }
}

/// The number of client-id bytes that a client length announces; a negative
/// length marks an absent client id.
pub open spec fn client_count(l: i16) -> int {
    if l < 0 { 0 } else { l as int }
}

/// A whole topic-partitions request, as the frame lays it out.
pub open spec fn dtp_request_spec(s: Seq<u8>) -> Option<DTPRequestView> {
    match header_spec(s) {
        None => None,
        Some(h) => if s.len() < 14 {
            None
        } else {
            let cl = signed16(be16_at(s, 12)) as i16;
            let c = client_count(cl);
            if 14 + c + 2 > s.len() {
                None
            } else {
                let tl = s[14 + c + 1];
                match topics_spec(s, 14 + c + 2, compact_count(tl) as nat) {
                    None => None,
                    Some((ts, q)) => if q + 6 > s.len() {
                        None
                    } else {
                        Some(
                            DTPRequestView {
                                header: h,
                                client_length: cl,
                                client_content: signed_bytes(s.subrange(14, 14 + c)),
                                tag_buffer: signed8(s[14 + c]),
                                topic_array_length: signed8(tl),
                                topics: ts,
                                response_partition_limit: signed32(be32_at(s, q)) as i32,
                                cursor: signed8(s[q + 4]),
                                tag_buffer_end: signed8(s[q + 5]),
                            },
                        )
                    },
                }
            }
        },
    }
}

/// The API key of a frame: the two bytes after the size.
pub open spec fn frame_key(s: Seq<u8>) -> i16 {
    signed16(be16_at(s, 4)) as i16
}

/// Reads `n` bytes from `pos` as signed bytes, if the slice holds them.
fn read_signed_bytes(s: &[u8], pos: usize, n: usize) -> (r: Option<Vec<i8>>)
    ensures
        r is Some <==> pos + n <= s@.len(),
        r matches Some(v) ==> v@ == signed_bytes(s@.subrange(pos as int, pos + n)),
{
    if pos > s.len() || s.len() - pos < n {
        return None;
    }
    let mut v: Vec<i8> = Vec::new();
    let mut i: usize = 0;
    while i < n
        invariant
            i <= n,
            pos + n <= s.len(),
            v@ == signed_bytes(s@.subrange(pos as int, pos + i)),
        decreases n - i,
    {
        v.push(to_i8(s[pos + i]));
        i = i + 1;
        assert(v@ =~= signed_bytes(s@.subrange(pos as int, pos + i)));
    }
    Some(v)
}

impl ApiVersionRequest {
    /// Decodes the fixed request header.
    pub fn from_bytes(input: &[u8]) -> (r: Result<ApiVersionRequest, DecodeError>)
        ensures
            r matches Ok(v) ==> header_spec(input@) == Some(v),
            r matches Err(e) ==> header_spec(input@) is None && e == DecodeError::TruncatedFrame,
    {
        if input.len() < 12 {
            return Err(DecodeError::TruncatedFrame);
        }
        let message_size = to_i32(read_be32(input, 0).unwrap());
        let request_api_key = to_i16(read_be16(input, 4).unwrap());
        let request_api_version = to_i16(read_be16(input, 6).unwrap());
        let correlation_id = to_i32(read_be32(input, 8).unwrap());
        Ok(ApiVersionRequest { message_size, request_api_key, request_api_version, correlation_id })
    }
}

/// Reads one topic entry at `pos`.
fn read_topic(s: &[u8], pos: usize) -> (r: Option<(DTPTopic, usize)>)
    ensures
        r is Some <==> topic_spec(s@, pos as int) is Some,
        r matches Some((t, e)) ==> topic_spec(s@, pos as int) == Some((t@, e as int)) && e <= s@.len(),
{
    if pos >= s.len() {
        return None;
    }
    let name_length = s[pos];
    let n = compact_len(name_length);
    let name = match read_signed_bytes(s, pos + 1, n) {
        Some(v) => v,
        None => return None,
    };
    let tag = match read_u8(s, pos + 1 + n) {
        Some(b) => b,
        None => return None,
    };
    let t = DTPTopic { name_length: to_i8(name_length), name, tag_buffer: to_i8(tag) };
    assert(t@ == topic_spec(s@, pos as int).unwrap().0);
    Some((t, pos + 1 + n + 1))
}

impl DTPRequest {
    /// Decodes a topic-partitions request: the common header, the client id,
    /// the compact array of topic names, the partition limit and the cursor.
    pub fn from_bytes(input: &[u8]) -> (r: Result<DTPRequest, DecodeError>)
        ensures
            r matches Ok(v) ==> dtp_request_spec(input@) == Some(v@),
            r matches Err(e) ==> dtp_request_spec(input@) is None && e == DecodeError::TruncatedFrame,
    {
        let h = ApiVersionRequest::from_bytes(input)?;
        let client_length = match read_be16(input, 12) {
            Some(u) => to_i16(u),
            None => return Err(DecodeError::TruncatedFrame),
        };
        let c: usize = if client_length < 0 { 0 } else { client_length as usize };
        let client_content = match read_signed_bytes(input, 14, c) {
            Some(v) => v,
            None => return Err(DecodeError::TruncatedFrame),
        };
        let tag_buffer = match read_u8(input, 14 + c) {
            Some(b) => to_i8(b),
            None => return Err(DecodeError::TruncatedFrame),
        };
        let tl = match read_u8(input, 14 + c + 1) {
            Some(b) => b,
            None => return Err(DecodeError::TruncatedFrame),
        };
        let count = compact_len(tl);
        let mut topics: Vec<DTPTopic> = Vec::new();
        let mut pos: usize = 14 + c + 2;
        let mut i: usize = 0;
        proof {
            assert(topics@.map_values(|t: DTPTopic| t@) =~= Seq::<DTPTopicView>::empty());
        }
        while i < count
            invariant
                i <= count,
                count == compact_count(tl),
                14 + c + 2 <= input.len(),
                pos <= input.len(),
                c == client_count(client_length),
                client_length == signed16(be16_at(input@, 12)) as i16,
                header_spec(input@) is Some,
                tl == input@[14 + c + 1],
                topics_spec(input@, 14 + c + 2, i as nat) == Some(
                    (topics@.map_values(|t: DTPTopic| t@), pos as int),
                ),
            decreases count - i,
        {
            let (t, e) = match read_topic(input, pos) {
                Some(x) => x,
                None => {
                    proof { lemma_topics_none_stays(input@, 14 + c + 2, (i + 1) as nat, compact_count(tl) as nat); }
                    return Err(DecodeError::TruncatedFrame);
                },
            };
            topics.push(t);
            pos = e;
            i = i + 1;
            proof {
                assert(topics@.map_values(|t: DTPTopic| t@) =~= topics_spec(input@, 14 + c + 2, (i - 1) as nat).unwrap().0.push(t@));
            }
        }
        let response_partition_limit = match read_be32(input, pos) {
            Some(u) => to_i32(u),
            None => return Err(DecodeError::TruncatedFrame),
        };
        let cursor = match read_u8(input, pos + 4) {
            Some(b) => to_i8(b),
            None => return Err(DecodeError::TruncatedFrame),
        };
        let tag_buffer_end = match read_u8(input, pos + 5) {
            Some(b) => to_i8(b),
            None => return Err(DecodeError::TruncatedFrame),
        };
        let r = DTPRequest {
            message_size: h.message_size,
            request_api_key: h.request_api_key,
            request_api_version: h.request_api_version,
            correlation_id: h.correlation_id,
            client_length,
            client_content,
            tag_buffer,
            topic_array_length: to_i8(tl),
            topics,
            response_partition_limit,
            cursor,
            tag_buffer_end,
        };
        assert(dtp_request_spec(input@) == Some(r@));
        Ok(r)
    }
}

/// Once the first `k` topic entries fail to decode, so do any more.
proof fn lemma_topics_none_stays(s: Seq<u8>, p: int, k: nat, m: nat)
    requires
        topics_spec(s, p, k) is None,
        k <= m,
    ensures
        topics_spec(s, p, m) is None,
    decreases m - k,
{
    if k < m {
        lemma_topics_none_stays(s, p, k, (m - 1) as nat);
    }
}

/// A frame's request, chosen by the API key that follows the size. Every
/// request starts with the twelve-byte header, so a shorter frame is
/// truncated whatever its key.
pub open spec fn request_spec(s: Seq<u8>) -> Result<AllRequestsView, DecodeError> {
    if s.len() < 12 {
        Err(DecodeError::TruncatedFrame)
    } else {
        match api_type_of(frame_key(s)) {
            Some(ApiType::ApiVersions) => match header_spec(s) {
                Some(h) => Ok(AllRequestsView::ApiVersionRequest(h)),
                None => Err(DecodeError::TruncatedFrame),
            },
            Some(ApiType::DTP) => match dtp_request_spec(s) {
                Some(d) => Ok(AllRequestsView::DTPRequest(d)),
                None => Err(DecodeError::TruncatedFrame),
            },
            None => Err(DecodeError::UnsupportedApiKey(frame_key(s))),
        }
    }
}

/// What an `AllRequests` holds.
pub enum AllRequestsView {
    ApiVersionRequest(ApiVersionRequest),
    DTPRequest(DTPRequestView),
}

impl View for AllRequests {
    type V = AllRequestsView;

    open spec fn view(&self) -> AllRequestsView {
        match self {
            AllRequests::ApiVersionRequest(a) => AllRequestsView::ApiVersionRequest(*a),
            AllRequests::DTPRequest(d) => AllRequestsView::DTPRequest(d@),
        }
    }
}

impl AllRequests {
    /// Decodes one frame, choosing the request kind by its API key without
    /// consuming it first. The declared frame size is kept in the request
    /// but not held against the bytes consumed: a version negotiation
    /// request is decoded from its fixed header alone, and the body that a
    /// peer sends after it is not read, so the two would not agree.
    pub fn from_bytes(input: &[u8]) -> (r: Result<AllRequests, DecodeError>)
        ensures
            r matches Ok(v) ==> request_spec(input@) == Ok::<AllRequestsView, DecodeError>(v@),
            r matches Err(e) ==> request_spec(input@) == Err::<AllRequestsView, DecodeError>(e),
    {
        if input.len() < 12 {
            return Err(DecodeError::TruncatedFrame);
        }
        let api_key = to_i16(read_be16(input, 4).unwrap());
        match ApiType::from_key(api_key) {
            Some(ApiType::ApiVersions) => {
                let request = ApiVersionRequest::from_bytes(input)?;
                Ok(AllRequests::ApiVersionRequest(request))
            },
            Some(ApiType::DTP) => {
                let request = DTPRequest::from_bytes(input)?;
                Ok(AllRequests::DTPRequest(request))
            },
            None => Err(DecodeError::UnsupportedApiKey(api_key)),
        }
    }
}

/// A frame shorter than the fixed request header is truncated, whatever it holds.
pub proof fn lemma_short_frame_truncated(s: Seq<u8>)
    requires
        s.len() < 12,
    ensures
        request_spec(s) == Err::<AllRequestsView, DecodeError>(DecodeError::TruncatedFrame),
{
}

/// Whether a decoded name agrees with its compact length byte: a byte of 0
/// goes with an empty name, any other byte is the name's length plus one.
pub open spec fn compact_name_ok(len_byte: u8, name_len: int) -> bool {
    if len_byte == 0 { name_len == 0 } else { len_byte == name_len + 1 }
}

/// Each topic entry of the first `k` agrees with its length byte.
proof fn lemma_topics_compact(s: Seq<u8>, p: int, k: nat)
    requires
        topics_spec(s, p, k) is Some,
    ensures
        forall|i: int|
            0 <= i < topics_spec(s, p, k).unwrap().0.len() ==> compact_name_ok(
                #[trigger] byte_of_i8(topics_spec(s, p, k).unwrap().0[i].name_length),
                topics_spec(s, p, k).unwrap().0[i].name.len() as int,
            ),
    decreases k,
{
    if k > 0 {
        lemma_topics_compact(s, p, (k - 1) as nat);
        let prev = topics_spec(s, p, (k - 1) as nat).unwrap();
        let q = prev.1;
        let b = s[q];
        assert(byte_of_i8(signed8(b)) == b);
        let ts = topics_spec(s, p, k).unwrap().0;
        assert(ts == prev.0.push(topic_spec(s, q).unwrap().0));
        assert forall|i: int| 0 <= i < ts.len() implies compact_name_ok(
            #[trigger] byte_of_i8(ts[i].name_length),
            ts[i].name.len() as int,
        ) by {
            if i < prev.0.len() {
                assert(ts[i] == prev.0[i]);
                assert(compact_name_ok(byte_of_i8(prev.0[i].name_length), prev.0[i].name.len() as int));
            } else {
                assert(ts[i].name_length == signed8(b));
                assert(ts[i].name.len() == compact_count(b));
            }
        }
    }
}

/// In every decoded topic-partitions request, each topic name's length byte
/// is the name's length plus one, or 0 with an empty name.
pub proof fn lemma_request_names_compact(s: Seq<u8>)
    requires
        dtp_request_spec(s) is Some,
    ensures
        forall|i: int|
            0 <= i < dtp_request_spec(s).unwrap().topics.len() ==> compact_name_ok(
                #[trigger] byte_of_i8(dtp_request_spec(s).unwrap().topics[i].name_length),
                dtp_request_spec(s).unwrap().topics[i].name.len() as int,
            ),
{
    let c = client_count(signed16(be16_at(s, 12)) as i16);
    lemma_topics_compact(s, 14 + c + 2, compact_count(s[14 + c + 1]) as nat);
}

} // verus!
