//! The Fetch request.
use crate::big_endian::{
    be_i32, be_i64, be_i8, get_i32, get_i64, get_i8, i32_be, i64_be, lemma_i32_roundtrip,
    lemma_i64_roundtrip, lemma_same_first_eight, lemma_same_first_four,
};
use crate::messages::primitives::{
    CompactArray, CompactString, Deserialize, Outcome, ParseError, TaggedFields, Uuid,
};
use vstd::prelude::*;

verus! {

/// Fetch Request (Version: 16) => max_wait_ms min_bytes max_bytes isolation_level session_id session_epoch [topics] [forgotten_topics_data] rack_id _tagged_fields
///   max_wait_ms => INT32
///   min_bytes => INT32
///   max_bytes => INT32
///   isolation_level => INT8
///   session_id => INT32
///   session_epoch => INT32
///   topics => topic_id [partitions] _tagged_fields
///   forgotten_topics_data => topic_id [partitions] _tagged_fields
///   rack_id => COMPACT_STRING
#[derive(Debug, Clone)]
pub struct Fetch {
    pub max_wait_ms: i32,
    pub min_bytes: i32,
    pub max_bytes: i32,
    pub isolation_level: i8,
    pub session_id: i32,
    pub session_epoch: i32,
    pub topics: CompactArray<Topic>,
    pub forgotten_topics_data: CompactArray<ForgottenTopicsData>,
    pub rack_id: CompactString,
    pub _tagged_fields: TaggedFields,
}

/// The content of a [`Fetch`] request.
pub struct FetchView {
    pub max_wait_ms: i32,
    pub min_bytes: i32,
    pub max_bytes: i32,
    pub isolation_level: i8,
    pub session_id: i32,
    pub session_epoch: i32,
    pub topics: Seq<TopicView>,
    pub forgotten_topics_data: Seq<ForgottenTopicsDataView>,
    pub rack_id: Seq<char>,
}

impl View for Fetch {
    type V = FetchView;

    open spec fn view(&self) -> FetchView {
        FetchView {
            max_wait_ms: self.max_wait_ms,
            min_bytes: self.min_bytes,
            max_bytes: self.max_bytes,
            isolation_level: self.isolation_level,
            session_id: self.session_id,
            session_epoch: self.session_epoch,
            topics: self.topics@,
            forgotten_topics_data: self.forgotten_topics_data@,
            rack_id: self.rack_id@,
        }
    }
}

/// The number of bytes of the fixed-width fields of a Fetch request.
pub open spec fn fetch_fixed_len() -> nat {
    21
}

impl Deserialize for Fetch {
    open spec fn spec_parse(buf: Seq<u8>) -> Outcome<FetchView> {
        if buf.len() < fetch_fixed_len() {
            Outcome::Undefined
        } else {
            let rest = buf.skip(21);
            match CompactArray::<Topic>::spec_parse(rest) {
                Outcome::Parsed(topics, s1) => match CompactArray::<ForgottenTopicsData>::spec_parse(
                    rest.skip(s1 as int),
                ) {
                    Outcome::Parsed(forgotten, s2) => match CompactString::spec_parse(
                        rest.skip((s1 + s2) as int),
                    ) {
                        Outcome::Parsed(rack_id, s3) => match TaggedFields::spec_parse(
                            rest.skip((s1 + s2 + s3) as int),
                        ) {
                            Outcome::Parsed(_, s4) => Outcome::Parsed(
                                FetchView {
                                    max_wait_ms: be_i32(buf),
                                    min_bytes: be_i32(buf.skip(4)),
                                    max_bytes: be_i32(buf.skip(8)),
                                    isolation_level: be_i8(buf.skip(12)),
                                    session_id: be_i32(buf.skip(13)),
                                    session_epoch: be_i32(buf.skip(17)),
                                    topics,
                                    forgotten_topics_data: forgotten,
                                    rack_id,
                                },
                                21 + s1 + s2 + s3 + s4,
                            ),
                            Outcome::Failed(f) => Outcome::Failed(f),
                            Outcome::Undefined => Outcome::Undefined,
                        },
                        Outcome::Failed(f) => Outcome::Failed(f),
                        Outcome::Undefined => Outcome::Undefined,
                    },
                    Outcome::Failed(f) => Outcome::Failed(f),
                    Outcome::Undefined => Outcome::Undefined,
                },
                Outcome::Failed(f) => Outcome::Failed(f),
                Outcome::Undefined => Outcome::Undefined,
            }
        }
    }

    proof fn lemma_parse_len(buf: Seq<u8>) {
        if buf.len() >= 21 {
            let rest = buf.skip(21);
            CompactArray::<Topic>::lemma_parse_len(rest);
            if let Outcome::Parsed(_, s1) = CompactArray::<Topic>::spec_parse(rest) {
                CompactArray::<ForgottenTopicsData>::lemma_parse_len(rest.skip(s1 as int));
                if let Outcome::Parsed(_, s2) = CompactArray::<ForgottenTopicsData>::spec_parse(
                    rest.skip(s1 as int),
                ) {
                    CompactString::lemma_parse_len(rest.skip((s1 + s2) as int));
                    if let Outcome::Parsed(_, s3) = CompactString::spec_parse(rest.skip((s1 + s2) as int)) {
                        TaggedFields::lemma_parse_len(rest.skip((s1 + s2 + s3) as int));
                    }
                }
            }
        }
    }

    fn try_parse(buf: &[u8]) -> (r: Option<Result<(Self, usize), ParseError>>) {
        let len = buf.len();
        if len < 21 {
            return None;
        }
        let max_wait_ms = get_i32(buf);
        let min_bytes = get_i32(&buf[4..len]);
        let max_bytes = get_i32(&buf[8..len]);
        let isolation_level = get_i8(&buf[12..len]);
        let session_id = get_i32(&buf[13..len]);
        let session_epoch = get_i32(&buf[17..len]);
        let rest = &buf[21..len];
        let rlen = rest.len();
        let (topics, s) = match CompactArray::<Topic>::try_parse(rest) {
            None => return None,
            Some(Err(e)) => return Some(Err(e)),
            Some(Ok(p)) => p,
        };
        proof {
            CompactArray::<Topic>::lemma_parse_len(rest@);
        }
        let (forgotten_topics_data, ss) = match CompactArray::<ForgottenTopicsData>::try_parse(
            &rest[s..rlen],
        ) {
            None => return None,
            Some(Err(e)) => return Some(Err(e)),
            Some(Ok(p)) => p,
        };
        proof {
            CompactArray::<ForgottenTopicsData>::lemma_parse_len(rest@.skip(s as int));
        }
        let (rack_id, sss) = match CompactString::try_parse(&rest[s + ss..rlen]) {
            None => return None,
            Some(Err(e)) => return Some(Err(e)),
            Some(Ok(p)) => p,
        };
        proof {
            CompactString::lemma_parse_len(rest@.skip(s + ss));
        }
        let (_tagged_fields, ssss) = match TaggedFields::try_parse(&rest[s + ss + sss..rlen]) {
            None => return None,
            Some(Err(e)) => return Some(Err(e)),
            Some(Ok(p)) => p,
        };
        let fetch = Self {
            max_wait_ms,
            min_bytes,
            max_bytes,
            isolation_level,
            session_id,
            session_epoch,
            topics,
            forgotten_topics_data,
            rack_id,
            _tagged_fields,
        };
        Some(Ok((fetch, 21 + s + ss + sss + ssss)))
    }
}

///   topics => topic_id [partitions] _tagged_fields
///     topic_id => UUID
///     partitions => partition current_leader_epoch fetch_offset last_fetched_epoch log_start_offset partition_max_bytes _tagged_fields
#[derive(Debug, Clone)]
pub struct Topic {
    pub topic_id: Uuid,
    pub partitions: CompactArray<Partition>,
    pub _tagged_fields: TaggedFields,
}

/// The content of a [`Topic`].
pub struct TopicView {
    pub topic_id: u128,
    pub partitions: Seq<Partition>,
}

impl View for Topic {
    type V = TopicView;

    open spec fn view(&self) -> TopicView {
        TopicView { topic_id: self.topic_id@, partitions: self.partitions@ }
    }
}

impl Deserialize for Topic {
    open spec fn spec_parse(buf: Seq<u8>) -> Outcome<TopicView> {
        match Uuid::spec_parse(buf) {
            Outcome::Parsed(topic_id, s1) => match CompactArray::<Partition>::spec_parse(
                buf.skip(s1 as int),
            ) {
                Outcome::Parsed(partitions, s2) => match TaggedFields::spec_parse(
                    buf.skip((s1 + s2) as int),
                ) {
                    Outcome::Parsed(_, s3) => Outcome::Parsed(
                        TopicView { topic_id, partitions },
                        s1 + s2 + s3,
                    ),
                    Outcome::Failed(f) => Outcome::Failed(f),
                    Outcome::Undefined => Outcome::Undefined,
                },
                Outcome::Failed(f) => Outcome::Failed(f),
                Outcome::Undefined => Outcome::Undefined,
            },
            Outcome::Failed(f) => Outcome::Failed(f),
            Outcome::Undefined => Outcome::Undefined,
        }
    }

    proof fn lemma_parse_len(buf: Seq<u8>) {
        Uuid::lemma_parse_len(buf);
        if let Outcome::Parsed(_, s1) = Uuid::spec_parse(buf) {
            CompactArray::<Partition>::lemma_parse_len(buf.skip(s1 as int));
            if let Outcome::Parsed(_, s2) = CompactArray::<Partition>::spec_parse(
                buf.skip(s1 as int),
            ) {
                TaggedFields::lemma_parse_len(buf.skip((s1 + s2) as int));
            }
        }
    }

    fn try_parse(buf: &[u8]) -> (r: Option<Result<(Self, usize), ParseError>>) {
        let len = buf.len();
        let (topic_id, s) = match Uuid::try_parse(buf) {
            None => return None,
            Some(Err(e)) => return Some(Err(e)),
            Some(Ok(p)) => p,
        };
        proof {
            Uuid::lemma_parse_len(buf@);
        }
        let (partitions, ss) = match CompactArray::<Partition>::try_parse(&buf[s..len]) {
            None => return None,
            Some(Err(e)) => return Some(Err(e)),
            Some(Ok(p)) => p,
        };
        proof {
            CompactArray::<Partition>::lemma_parse_len(buf@.skip(s as int));
        }
        let (_tagged_fields, sss) = match TaggedFields::try_parse(&buf[s + ss..len]) {
            None => return None,
            Some(Err(e)) => return Some(Err(e)),
            Some(Ok(p)) => p,
        };
        let topics = Self { topic_id, partitions, _tagged_fields };
        Some(Ok((topics, s + ss + sss)))
    }
}

///     partitions => partition current_leader_epoch fetch_offset last_fetched_epoch log_start_offset partition_max_bytes _tagged_fields
///       partition => INT32
///       current_leader_epoch => INT32
///       fetch_offset => INT64
///       last_fetched_epoch => INT32
///       log_start_offset => INT64
///       partition_max_bytes => INT32
#[derive(Debug, Clone)]
pub struct Partition {
    pub partition: i32,
    pub current_leader_epoch: i32,
    pub fetch_offset: i64,
    pub last_fetched_epoch: i32,
    pub log_start_offset: i64,
    pub partition_max_bytes: i32,
    pub _tagged_fields: TaggedFields,
}

impl View for Partition {
    type V = Partition;

    open spec fn view(&self) -> Partition {
        *self
    }
}

impl Default for Partition {
    fn default() -> (r: Self)
        ensures
            r.partition == 0,
            r.current_leader_epoch == 0,
            r.fetch_offset == 0,
            r.last_fetched_epoch == 0,
            r.log_start_offset == 0,
            r.partition_max_bytes == 0,
    {
        Partition {
            partition: 0,
            current_leader_epoch: 0,
            fetch_offset: 0,
            last_fetched_epoch: 0,
            log_start_offset: 0,
            partition_max_bytes: 0,
            _tagged_fields: TaggedFields,
        }
    }
}

impl Deserialize for Partition {
    open spec fn spec_parse(buf: Seq<u8>) -> Outcome<Partition> {
        if buf.len() < 32 {
            Outcome::Undefined
        } else {
            match TaggedFields::spec_parse(buf.skip(32)) {
                Outcome::Parsed(_, s) => Outcome::Parsed(
                    Partition {
                        partition: be_i32(buf),
                        current_leader_epoch: be_i32(buf.skip(4)),
                        fetch_offset: be_i64(buf.skip(8)),
                        last_fetched_epoch: be_i32(buf.skip(16)),
                        log_start_offset: be_i64(buf.skip(20)),
                        partition_max_bytes: be_i32(buf.skip(28)),
                        _tagged_fields: TaggedFields,
                    },
                    32 + s,
                ),
                Outcome::Failed(f) => Outcome::Failed(f),
                Outcome::Undefined => Outcome::Undefined,
            }
        }
    }

    proof fn lemma_parse_len(buf: Seq<u8>) {
    }

    fn try_parse(buf: &[u8]) -> (r: Option<Result<(Self, usize), ParseError>>) {
        let len = buf.len();
        if len < 32 {
            return None;
        }
        let partition = get_i32(buf);
        let current_leader_epoch = get_i32(&buf[4..len]);
        let fetch_offset = get_i64(&buf[8..len]);
        let last_fetched_epoch = get_i32(&buf[16..len]);
        let log_start_offset = get_i64(&buf[20..len]);
        let partition_max_bytes = get_i32(&buf[28..len]);
        let (_tagged_fields, s) = match TaggedFields::try_parse(&buf[32..len]) {
            None => return None,
            Some(Err(e)) => return Some(Err(e)),
            Some(Ok(p)) => p,
        };
        let p = Self {
            partition,
            current_leader_epoch,
            fetch_offset,
            last_fetched_epoch,
            log_start_offset,
            partition_max_bytes,
            _tagged_fields,
        };
        Some(Ok((p, 32 + s)))
    }
}

/// A read Fetch request carries the max wait (INT32) of its bytes 0..4, the
/// min bytes (INT32) of 4..8, the max bytes (INT32) of 8..12, the isolation
/// level (INT8) of byte 12, the session id (INT32) of 13..17 and the session
/// epoch (INT32) of 17..21, each read big-endian, and takes more than those
/// 21 bytes.
pub proof fn law_fetch_fixed_fields(buf: Seq<u8>)
    ensures
        Fetch::spec_parse(buf) matches Outcome::Parsed(f, n) ==> {
            &&& f.max_wait_ms == be_i32(buf.subrange(0, 4))
            &&& f.min_bytes == be_i32(buf.subrange(4, 8))
            &&& f.max_bytes == be_i32(buf.subrange(8, 12))
            &&& f.isolation_level == buf[12] as i8
            &&& f.session_id == be_i32(buf.subrange(13, 17))
            &&& f.session_epoch == be_i32(buf.subrange(17, 21))
            &&& 21 < n <= buf.len()
        },
{
    if let Outcome::Parsed(f, n) = Fetch::spec_parse(buf) {
        Fetch::lemma_parse_len(buf);
        lemma_same_first_four(buf, buf.subrange(0, 4));
        lemma_same_first_four(buf.skip(4), buf.subrange(4, 8));
        lemma_same_first_four(buf.skip(8), buf.subrange(8, 12));
        lemma_same_first_four(buf.skip(13), buf.subrange(13, 17));
        lemma_same_first_four(buf.skip(17), buf.subrange(17, 21));
        assert(buf.skip(12)[0] == buf[12]);
    }
}

/// Reading a request partition gives back the fields that its layout holds:
/// the partition index (INT32) at 0, the current leader epoch (INT32) at 4,
/// the fetch offset (INT64) at 8, the last fetched epoch (INT32) at 16, the log
/// start offset (INT64) at 20 and the partition max bytes (INT32) at 28, then
/// an empty tagged-field count; those 33 bytes are taken, whatever follows.
pub proof fn law_partition_roundtrip(p: Partition, rest: Seq<u8>)
    ensures
        Partition::spec_parse(
            i32_be(p.partition) + i32_be(p.current_leader_epoch) + i64_be(p.fetch_offset) + i32_be(
                p.last_fetched_epoch,
            ) + i64_be(p.log_start_offset) + i32_be(p.partition_max_bytes) + seq![0u8] + rest,
        ) == Outcome::Parsed(p, 33),
{
    let a = i32_be(p.partition);
    let b = i32_be(p.current_leader_epoch);
    let c = i64_be(p.fetch_offset);
    let d = i32_be(p.last_fetched_epoch);
    let e = i64_be(p.log_start_offset);
    let f = i32_be(p.partition_max_bytes);
    lemma_i32_roundtrip(p.partition);
    lemma_i32_roundtrip(p.current_leader_epoch);
    lemma_i64_roundtrip(p.fetch_offset);
    lemma_i32_roundtrip(p.last_fetched_epoch);
    lemma_i64_roundtrip(p.log_start_offset);
    lemma_i32_roundtrip(p.partition_max_bytes);
    let buf = a + b + c + d + e + f + seq![0u8] + rest;
    let t6 = seq![0u8] + rest;
    let t5 = f + t6;
    let t4 = e + t5;
    let t3 = d + t4;
    let t2 = c + t3;
    let t1 = b + t2;
    assert(buf =~= a + t1);
    assert(buf.skip(4) =~= t1);
    assert(buf.skip(8) =~= t2);
    assert(buf.skip(16) =~= t3);
    assert(buf.skip(20) =~= t4);
    assert(buf.skip(28) =~= t5);
    assert(buf.skip(32) =~= t6);
    lemma_same_first_four(buf, a);
    lemma_same_first_four(t1, b);
    lemma_same_first_eight(t2, c);
    lemma_same_first_four(t3, d);
    lemma_same_first_eight(t4, e);
    lemma_same_first_four(t5, f);
}

///   forgotten_topics_data => topic_id [partitions] _tagged_fields
///     topic_id => UUID
///     partitions => INT32
#[derive(Debug, Clone)]
pub struct ForgottenTopicsData {
    pub topic_id: Uuid,
    pub partitions: CompactArray<i32>,
    pub _tagged_fields: TaggedFields,
}

/// The content of a [`ForgottenTopicsData`].
pub struct ForgottenTopicsDataView {
    pub topic_id: u128,
    pub partitions: Seq<i32>,
}

impl View for ForgottenTopicsData {
    type V = ForgottenTopicsDataView;

    open spec fn view(&self) -> ForgottenTopicsDataView {
        ForgottenTopicsDataView { topic_id: self.topic_id@, partitions: self.partitions@ }
    }
}

impl Deserialize for ForgottenTopicsData {
    open spec fn spec_parse(buf: Seq<u8>) -> Outcome<ForgottenTopicsDataView> {
        match Uuid::spec_parse(buf) {
            Outcome::Parsed(topic_id, s1) => match CompactArray::<i32>::spec_parse(
                buf.skip(s1 as int),
            ) {
                Outcome::Parsed(partitions, s2) => match TaggedFields::spec_parse(
                    buf.skip((s1 + s2) as int),
                ) {
                    Outcome::Parsed(_, s3) => Outcome::Parsed(
                        ForgottenTopicsDataView { topic_id, partitions },
                        s1 + s2 + s3,
                    ),
                    Outcome::Failed(f) => Outcome::Failed(f),
                    Outcome::Undefined => Outcome::Undefined,
                },
                Outcome::Failed(f) => Outcome::Failed(f),
                Outcome::Undefined => Outcome::Undefined,
            },
            Outcome::Failed(f) => Outcome::Failed(f),
            Outcome::Undefined => Outcome::Undefined,
        }
    }

    proof fn lemma_parse_len(buf: Seq<u8>) {
        Uuid::lemma_parse_len(buf);
        if let Outcome::Parsed(_, s1) = Uuid::spec_parse(buf) {
            CompactArray::<i32>::lemma_parse_len(buf.skip(s1 as int));
            if let Outcome::Parsed(_, s2) = CompactArray::<i32>::spec_parse(buf.skip(s1 as int)) {
                TaggedFields::lemma_parse_len(buf.skip((s1 + s2) as int));
            }
        }
    }

    fn try_parse(buf: &[u8]) -> (r: Option<Result<(Self, usize), ParseError>>) {
        let len = buf.len();
        let (uuid, s) = match Uuid::try_parse(buf) {
            None => return None,
            Some(Err(e)) => return Some(Err(e)),
            Some(Ok(p)) => p,
        };
        proof {
            Uuid::lemma_parse_len(buf@);
        }
        let (partitions, ss) = match CompactArray::<i32>::try_parse(&buf[s..len]) {
            None => return None,
            Some(Err(e)) => return Some(Err(e)),
            Some(Ok(p)) => p,
        };
        proof {
            CompactArray::<i32>::lemma_parse_len(buf@.skip(s as int));
        }
        let (_tagged_fields, sss) = match TaggedFields::try_parse(&buf[s + ss..len]) {
            None => return None,
            Some(Err(e)) => return Some(Err(e)),
            Some(Ok(p)) => p,
        };
        Some(Ok((Self { topic_id: uuid, partitions, _tagged_fields }, s + ss + sss)))
    }
}

} // verus!
