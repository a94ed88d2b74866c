//! Decoding of the cluster metadata log: one record batch whose records each
//! carry one topic record.
use vstd::prelude::*;
use crate::requests::compact_name_ok;
use crate::wire::{
    be128_at, be16_at, be32_at, be64_at, compact_count, compact_len, read_be128, read_be16,
    read_be32, read_be64, read_bytes, read_u8,
};

verus! {

/// Why a metadata log could not be decoded.
#[derive(Debug, Clone, Copy, PartialEq, Eq, Structural)]
pub enum LogError {
    /// The log ended before a field could be read.
    TruncatedLogFile,
    /// A record's key uses an encoding other than the absent key.
    UnsupportedKeyEncoding,
}

/// Any one of the parts of a decoded log.
#[derive(Debug, Clone)]
pub enum MetadataComponents {
    MetadataLogFile(MetadataLogFile),
    Record(Record),
    TopicRecord(TopicRecord),
}

/// A log entry that maps a topic name to its identifier.
#[derive(Debug, Clone)]
pub struct TopicRecord {
    pub frame_version: u8,
    pub type_: u8,
    pub version: u8,
    pub name_length: u8,
    pub name: Vec<u8>,
    pub topic_uuid: u128,
    pub tagged_fields_count: u8,
}

/// One record of the batch.
#[derive(Debug, Clone)]
pub struct Record {
    pub length: u8,
    pub attributes: u8,
    pub timestamp_delta: u8,
    pub offset_delta: u8,
    pub key_length: u8,
    pub value_length: u8,
    pub topic_records: Vec<TopicRecord>,
}

/// A record batch: its header and its records.
#[derive(Debug, Clone)]
pub struct MetadataLogFile {
    pub base_offset: u64,
    pub batch_length: u32,
    pub partition_leader_epoch: u32,
    pub magic_byte: u8,
    pub crc: u32,
    pub attributes: u16,
    pub last_offset_delta: u32,
    pub base_timestamp: u64,
    pub max_timestamp: u64,
    pub producer_id: u64,
    pub producer_epoch: u16,
    pub base_sequence: u32,
    pub records_length: u32,
    pub records: Vec<Record>,
    pub headers_array_count: u8,
}

/// What a `TopicRecord` holds.
pub struct TopicRecordView {
    pub frame_version: u8,
    pub type_: u8,
    pub version: u8,
    pub name_length: u8,
    pub name: Seq<u8>,
    pub topic_uuid: u128,
    pub tagged_fields_count: u8,
}

/// What a `Record` holds.
pub struct RecordView {
    pub length: u8,
    pub attributes: u8,
    pub timestamp_delta: u8,
    pub offset_delta: u8,
    pub key_length: u8,
    pub value_length: u8,
    pub topic_records: Seq<TopicRecordView>,
}

/// What a `MetadataLogFile` holds.
pub struct MetadataLogFileView {
    pub base_offset: u64,
    pub batch_length: u32,
    pub partition_leader_epoch: u32,
    pub magic_byte: u8,
    pub crc: u32,
    pub attributes: u16,
    pub last_offset_delta: u32,
    pub base_timestamp: u64,
    pub max_timestamp: u64,
    pub producer_id: u64,
    pub producer_epoch: u16,
    pub base_sequence: u32,
    pub records_length: u32,
    pub records: Seq<RecordView>,
    pub headers_array_count: u8,
}

impl View for TopicRecord {
    type V = TopicRecordView;

    open spec fn view(&self) -> TopicRecordView {
        TopicRecordView {
            frame_version: self.frame_version,
            type_: self.type_,
            version: self.version,
            name_length: self.name_length,
            name: self.name@,
            topic_uuid: self.topic_uuid,
            tagged_fields_count: self.tagged_fields_count,
        }
    }
}

impl View for Record {
    type V = RecordView;

    open spec fn view(&self) -> RecordView {
        RecordView {
            length: self.length,
            attributes: self.attributes,
            timestamp_delta: self.timestamp_delta,
            offset_delta: self.offset_delta,
            key_length: self.key_length,
            value_length: self.value_length,
            topic_records: self.topic_records@.map_values(|t: TopicRecord| t@),
        }
    }
}

impl View for MetadataLogFile {
    type V = MetadataLogFileView;

    open spec fn view(&self) -> MetadataLogFileView {
        MetadataLogFileView {
            base_offset: self.base_offset,
            batch_length: self.batch_length,
            partition_leader_epoch: self.partition_leader_epoch,
            magic_byte: self.magic_byte,
            crc: self.crc,
            attributes: self.attributes,
            last_offset_delta: self.last_offset_delta,
            base_timestamp: self.base_timestamp,
            max_timestamp: self.max_timestamp,
            producer_id: self.producer_id,
            producer_epoch: self.producer_epoch,
            base_sequence: self.base_sequence,
            records_length: self.records_length,
            records: self.records@.map_values(|r: Record| r@),
            headers_array_count: self.headers_array_count,
        }
    }
}

/// Size of the fixed batch header, up to and including the record count.
pub const BATCH_HEADER_LEN: usize = 61;

/// One record at `p`: six single-byte fields, then its topic record (three
/// single-byte fields, the compact name length, the name, the 128-bit
/// identifier and the tagged-field count); with the position after it.
pub open spec fn record_spec(s: Seq<u8>, p: int) -> Result<(RecordView, int), LogError> {
    if p < 0 || p + 5 > s.len() {
        Err(LogError::TruncatedLogFile)
    } else if s[p + 4] >= 2 {
        Err(LogError::UnsupportedKeyEncoding)
    } else if p + 10 > s.len() {
        Err(LogError::TruncatedLogFile)
    } else {
        let n = compact_count(s[p + 9]);
        if p + 10 + n + 17 > s.len() {
            Err(LogError::TruncatedLogFile)
        } else {
            let t = TopicRecordView {
                frame_version: s[p + 6],
                type_: s[p + 7],
                version: s[p + 8],
                name_length: s[p + 9],
                name: s.subrange(p + 10, p + 10 + n),
                topic_uuid: be128_at(s, p + 10 + n) as u128,
                tagged_fields_count: s[p + 10 + n + 16],
            };
            Ok(
                (
                    RecordView {
                        length: s[p],
                        attributes: s[p + 1],
                        timestamp_delta: s[p + 2],
                        offset_delta: s[p + 3],
                        key_length: s[p + 4],
                        value_length: s[p + 5],
                        topic_records: seq![t],
                    },
                    p + 10 + n + 17,
                ),
            )
        }
    }
}

/// The first `k` records from `p`, with the position after them.
pub open spec fn records_spec(s: Seq<u8>, p: int, k: nat) -> Result<(Seq<RecordView>, int), LogError>
    decreases k,
{
    if k == 0 {
        Ok((Seq::empty(), p))
    } else {
        match records_spec(s, p, (k - 1) as nat) {
            Ok((rs, q)) => match record_spec(s, q) {
                Ok((r, e)) => Ok((rs.push(r), e)),
                Err(e) => Err(e),
            },
            Err(e) => Err(e),
        }
    }
}

/// A whole batch: the header fields in order, as many records as the record
/// count says, and the trailing header count.
pub open spec fn log_spec(s: Seq<u8>) -> Result<MetadataLogFileView, LogError> {
    if s.len() < BATCH_HEADER_LEN {
        Err(LogError::TruncatedLogFile)
    } else {
        match records_spec(s, BATCH_HEADER_LEN as int, be32_at(s, 57) as nat) {
            Err(e) => Err(e),
            Ok((rs, q)) => if q + 1 > s.len() {
                Err(LogError::TruncatedLogFile)
            } else {
                Ok(
                    MetadataLogFileView {
                        base_offset: be64_at(s, 0) as u64,
                        batch_length: be32_at(s, 8) as u32,
                        partition_leader_epoch: be32_at(s, 12) as u32,
                        magic_byte: s[16],
                        crc: be32_at(s, 17) as u32,
                        attributes: be16_at(s, 21) as u16,
                        last_offset_delta: be32_at(s, 23) as u32,
                        base_timestamp: be64_at(s, 27) as u64,
                        max_timestamp: be64_at(s, 35) as u64,
                        producer_id: be64_at(s, 43) as u64,
                        producer_epoch: be16_at(s, 51) as u16,
                        base_sequence: be32_at(s, 53) as u32,
                        records_length: be32_at(s, 57) as u32,
                        records: rs,
                        headers_array_count: s[q],
                    },
                )
            },
        }
    }
}

/// Once the first `k` records fail to decode, any more fail with the same error.
proof fn lemma_records_err_stays(s: Seq<u8>, p: int, k: nat, m: nat)
    requires
        records_spec(s, p, k) is Err,
        k <= m,
    ensures
        records_spec(s, p, m) == records_spec(s, p, k),
    decreases m - k,
{
    if k < m {
        lemma_records_err_stays(s, p, k, (m - 1) as nat);
    }
}

/// Reads one record at `pos`.
fn read_record(s: &[u8], pos: usize) -> (r: Result<(Record, usize), LogError>)
    ensures
        r matches Ok((rec, e)) ==> record_spec(s@, pos as int) == Ok::<(RecordView, int), LogError>((rec@, e as int))
            && e <= s@.len(),
        r matches Err(e) ==> record_spec(s@, pos as int) == Err::<(RecordView, int), LogError>(e),
{
    let len = s.len();
    if pos > len || len - pos < 5 {
        return Err(LogError::TruncatedLogFile);
    }
    let key_length = s[pos + 4];
    if key_length >= 2 {
        return Err(LogError::UnsupportedKeyEncoding);
    }
    if len - pos < 10 {
        return Err(LogError::TruncatedLogFile);
    }
    let name_length = s[pos + 9];
    let n = compact_len(name_length);
    let name = match read_bytes(s, pos + 10, n) {
        Some(v) => v,
        None => return Err(LogError::TruncatedLogFile),
    };
    let topic_uuid = match read_be128(s, pos + 10 + n) {
        Some(u) => u,
        None => return Err(LogError::TruncatedLogFile),
    };
    let tagged_fields_count = match read_u8(s, pos + 10 + n + 16) {
        Some(b) => b,
        None => return Err(LogError::TruncatedLogFile),
    };
    let t = TopicRecord {
        frame_version: s[pos + 6],
        type_: s[pos + 7],
        version: s[pos + 8],
        name_length,
        name,
        topic_uuid,
        tagged_fields_count,
    };
    let mut topic_records: Vec<TopicRecord> = Vec::new();
    topic_records.push(t);
    let rec = Record {
        length: s[pos],
        attributes: s[pos + 1],
        timestamp_delta: s[pos + 2],
        offset_delta: s[pos + 3],
        key_length,
        value_length: s[pos + 5],
        topic_records,
    };
    assert(rec@.topic_records =~= record_spec(s@, pos as int).unwrap().0.topic_records);
    Ok((rec, pos + 10 + n + 17))
}

impl MetadataLogFile {
    /// Decodes one record batch from the bytes of a metadata log.
    pub fn from_bytes(input: &[u8]) -> (r: Result<MetadataLogFile, LogError>)
        ensures
            r matches Ok(v) ==> log_spec(input@) == Ok::<MetadataLogFileView, LogError>(v@),
            r matches Err(e) ==> log_spec(input@) == Err::<MetadataLogFileView, LogError>(e),
    {
        if input.len() < BATCH_HEADER_LEN {
            return Err(LogError::TruncatedLogFile);
        }
        let base_offset = read_be64(input, 0).unwrap();
        let batch_length = read_be32(input, 8).unwrap();
        let partition_leader_epoch = read_be32(input, 12).unwrap();
        let magic_byte = input[16];
        let crc = read_be32(input, 17).unwrap();
        let attributes = read_be16(input, 21).unwrap();
        let last_offset_delta = read_be32(input, 23).unwrap();
        let base_timestamp = read_be64(input, 27).unwrap();
        let max_timestamp = read_be64(input, 35).unwrap();
        let producer_id = read_be64(input, 43).unwrap();
        let producer_epoch = read_be16(input, 51).unwrap();
        let base_sequence = read_be32(input, 53).unwrap();
        let records_length = read_be32(input, 57).unwrap();
        let mut records: Vec<Record> = Vec::new();
        let mut pos: usize = BATCH_HEADER_LEN;
        let mut i: u32 = 0;
        proof {
            assert(records@.map_values(|r: Record| r@) =~= Seq::<RecordView>::empty());
        }
        while i < records_length
            invariant
                i <= records_length,
                records_length == be32_at(input@, 57),
                pos <= input.len(),
                input.len() >= BATCH_HEADER_LEN,
                records_spec(input@, BATCH_HEADER_LEN as int, i as nat) == Ok::<(Seq<RecordView>, int), LogError>(
                    (records@.map_values(|r: Record| r@), pos as int),
                ),
            decreases records_length - i,
        {
            let (rec, e) = match read_record(input, pos) {
                Ok(x) => x,
                Err(err) => {
                    proof {
                        assert(records_spec(input@, BATCH_HEADER_LEN as int, (i + 1) as nat) == Err::<(Seq<RecordView>, int), LogError>(err));
                        lemma_records_err_stays(input@, BATCH_HEADER_LEN as int, (i + 1) as nat, records_length as nat);
                    }
                    return Err(err);
                },
            };
            records.push(rec);
            pos = e;
            i = i + 1;
            proof {
                assert(records@.map_values(|r: Record| r@) =~= records_spec(input@, BATCH_HEADER_LEN as int, (i - 1) as nat).unwrap().0.push(rec@));
            }
        }
        let headers_array_count = match read_u8(input, pos) {
            Some(b) => b,
            None => return Err(LogError::TruncatedLogFile),
        };
        Ok(MetadataLogFile {
            base_offset,
            batch_length,
            partition_leader_epoch,
            magic_byte,
            crc,
            attributes,
            last_offset_delta,
            base_timestamp,
            max_timestamp,
            producer_id,
            producer_epoch,
            base_sequence,
            records_length,
            records,
            headers_array_count,
        })
    }
}

/// Each of the first `k` records carries exactly one topic record, whose
/// name agrees with its compact length byte.
proof fn lemma_records_shape(s: Seq<u8>, p: int, k: nat)
    requires
        records_spec(s, p, k) is Ok,
    ensures
        forall|i: int|
            0 <= i < records_spec(s, p, k).unwrap().0.len() ==> #[trigger] record_shape_ok(
                records_spec(s, p, k).unwrap().0[i],
            ),
    decreases k,
{
    if k > 0 {
        lemma_records_shape(s, p, (k - 1) as nat);
        let prev = records_spec(s, p, (k - 1) as nat).unwrap();
        let rs = records_spec(s, p, k).unwrap().0;
        assert(rs == prev.0.push(record_spec(s, prev.1).unwrap().0));
        assert forall|i: int| 0 <= i < rs.len() implies #[trigger] record_shape_ok(rs[i]) by {
            if i < prev.0.len() {
                assert(rs[i] == prev.0[i]);
                assert(record_shape_ok(prev.0[i]));
            }
        }
    }
}

/// A record as the decoder builds it: one topic record, whose name length
/// byte is the name's length plus one, or 0 with an empty name.
pub open spec fn record_shape_ok(r: RecordView) -> bool {
    &&& r.topic_records.len() == 1
    &&& compact_name_ok(r.topic_records[0].name_length, r.topic_records[0].name.len() as int)
}

/// In every decoded metadata log, each record carries exactly one topic
/// record, and each topic name's length byte is the name's length plus one,
/// or 0 with an empty name.
pub proof fn lemma_log_names_compact(s: Seq<u8>)
    requires
        log_spec(s) is Ok,
    ensures
        forall|i: int|
            0 <= i < log_spec(s).unwrap().records.len() ==> #[trigger] record_shape_ok(
                log_spec(s).unwrap().records[i],
            ),
{
    lemma_records_shape(s, BATCH_HEADER_LEN as int, be32_at(s, 57) as nat);
}

} // verus!
