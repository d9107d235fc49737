//! The Fetch response.
use crate::big_endian::{
    i16_be, i32_be, i64_be, lemma_splice_extend, put_i16_at, put_i32_at, put_i64_at, splice,
};
use crate::messages::primitives::{
    CompactArray, CompactRecords, Serialize, SerializeError, TaggedFields, Uuid, write_at,
};
use crate::messages::ErrorCode;
use vstd::prelude::*;

verus! {

/// Fetch Response (Version: 16) => throttle_time_ms error_code session_id [responses] _tagged_fields
///   throttle_time_ms => INT32
///   error_code => INT16
///   session_id => INT32
///   responses => topic_id [partitions] _tagged_fields
#[derive(Debug, Clone)]
pub struct Fetch {
    pub throttle_time_ms: i32,
    pub error_code: ErrorCode,
    pub session_id: i32,
    pub responses: CompactArray<Response>,
    pub _tagged_fields: TaggedFields,
}

/// The content of a [`Fetch`] response.
pub struct FetchView {
    pub throttle_time_ms: i32,
    pub error_code: ErrorCode,
    pub session_id: i32,
    pub responses: Seq<ResponseView>,
}

impl View for Fetch {
    type V = FetchView;

    open spec fn view(&self) -> FetchView {
        FetchView {
            throttle_time_ms: self.throttle_time_ms,
            error_code: self.error_code,
            session_id: self.session_id,
            responses: self.responses@,
        }
    }
}

impl Default for Fetch {
    fn default() -> (r: Self)
        ensures
            r@ == (FetchView {
                throttle_time_ms: 0,
                error_code: ErrorCode::NoError,
                session_id: 0,
                responses: Seq::empty(),
            }),
    {
        let r = Fetch {
            throttle_time_ms: 0,
            error_code: ErrorCode::NoError,
            session_id: 0,
            responses: CompactArray::default(),
            _tagged_fields: TaggedFields,
        };
        assert(r.responses@ =~= Seq::<ResponseView>::empty());
        r
    }
}

impl Serialize for Fetch {
    open spec fn spec_bytes(v: FetchView) -> Seq<u8> {
        i32_be(v.throttle_time_ms) + i16_be(v.error_code.spec_code()) + i32_be(v.session_id)
            + CompactArray::<Response>::spec_bytes(v.responses) + TaggedFields::spec_bytes(())
    }

    fn write(&self, buf: &mut [u8]) -> (r: Result<usize, SerializeError>) {
        let ghost a = i32_be(self.throttle_time_ms);
        let ghost b = i16_be(self.error_code.spec_code());
        let ghost c = i32_be(self.session_id);
        let ghost d = CompactArray::<Response>::spec_bytes(self.responses@);
        let ghost e = TaggedFields::spec_bytes(());
        // The length of `buf` is a `usize`: it bounds the offsets below.
        let total = buf.len();
        let ghost o = old(buf)@;
        put_i32_at(buf, 0, self.throttle_time_ms);
        assert(buf@ =~= splice(o, 0, a));
        put_i16_at(buf, 4, self.error_code.code());
        proof { lemma_splice_extend(o, a, b); }
        put_i32_at(buf, 6, self.session_id);
        proof { lemma_splice_extend(o, a + b, c); }
        let s = write_at(&self.responses, buf, 10);
        proof { lemma_splice_extend(o, a + b + c, d); }
        let ss = write_at(&self._tagged_fields, buf, 10 + s);
        proof { lemma_splice_extend(o, a + b + c + d, e); }
        Ok(10 + s + ss)
    }

    fn encoded_len(&self) -> (r: Option<usize>) {
        match self.responses.encoded_len() {
            Some(n) => if n <= usize::MAX - 11 {
                Some(n + 11)
            } else {
                None
            },
            None => None,
        }
    }
}

///   responses => topic_id [partitions] _tagged_fields
///     topic_id => UUID
///     partitions => partition_index error_code high_watermark last_stable_offset log_start_offset [aborted_transactions] preferred_read_replica records _tagged_fields
#[derive(Debug, Clone)]
pub struct Response {
    pub topic_id: Uuid,
    pub partitions: CompactArray<Partition>,
    pub _tagged_fields: TaggedFields,
}

/// The content of a [`Response`].
pub struct ResponseView {
    pub topic_id: u128,
    pub partitions: Seq<PartitionView>,
}

impl View for Response {
    type V = ResponseView;

    open spec fn view(&self) -> ResponseView {
        ResponseView { topic_id: self.topic_id@, partitions: self.partitions@ }
    }
}

impl Default for Response {
    fn default() -> (r: Self)
        ensures
            r@ == (ResponseView { topic_id: 0, partitions: Seq::empty() }),
    {
        let r = Response {
            topic_id: Uuid::default(),
            partitions: CompactArray::default(),
            _tagged_fields: TaggedFields,
        };
        assert(r.partitions@ =~= Seq::<PartitionView>::empty());
        r
    }
}

impl Serialize for Response {
    open spec fn spec_bytes(v: ResponseView) -> Seq<u8> {
        Uuid::spec_bytes(v.topic_id) + CompactArray::<Partition>::spec_bytes(v.partitions)
            + TaggedFields::spec_bytes(())
    }

    fn write(&self, buf: &mut [u8]) -> (r: Result<usize, SerializeError>) {
        let ghost a = Uuid::spec_bytes(self.topic_id@);
        let ghost b = CompactArray::<Partition>::spec_bytes(self.partitions@);
        let ghost c = TaggedFields::spec_bytes(());
        // The length of `buf` is a `usize`: it bounds the offsets below.
        let total = buf.len();
        let ghost o = old(buf)@;
        proof {
            crate::big_endian::lemma_u128_roundtrip(self.topic_id.uuid);
        }
        let mut s = write_at(&self.topic_id, buf, 0);
        s = s + write_at(&self.partitions, buf, s);
        proof { lemma_splice_extend(o, a, b); }
        s = s + write_at(&self._tagged_fields, buf, s);
        proof { lemma_splice_extend(o, a + b, c); }
        Ok(s)
    }

    fn encoded_len(&self) -> (r: Option<usize>) {
        proof {
            crate::big_endian::lemma_u128_roundtrip(self.topic_id.uuid);
        }
        match self.partitions.encoded_len() {
            Some(n) => if n <= usize::MAX - 17 {
                Some(n + 17)
            } else {
                None
            },
            None => None,
        }
    }
}

///     partitions => partition_index error_code high_watermark last_stable_offset log_start_offset [aborted_transactions] preferred_read_replica records _tagged_fields
///       partition_index => INT32
///       error_code => INT16
///       high_watermark => INT64
///       last_stable_offset => INT64
///       log_start_offset => INT64
///       aborted_transactions => producer_id first_offset _tagged_fields
///       preferred_read_replica => INT32
///       records => COMPACT_RECORDS
#[derive(Debug, Clone)]
pub struct Partition {
    pub partition_index: i32,
    pub error_code: ErrorCode,
    pub high_watermark: i64,
    pub last_stable_offset: i64,
    pub log_start_offset: i64,
    pub aborted_transactions: CompactArray<AbortedTransactions>,
    pub preferred_read_replica: i32,
    pub records: CompactRecords,
    pub _tagged_fields: TaggedFields,
}

/// The content of a response [`Partition`].
pub struct PartitionView {
    pub partition_index: i32,
    pub error_code: ErrorCode,
    pub high_watermark: i64,
    pub last_stable_offset: i64,
    pub log_start_offset: i64,
    pub aborted_transactions: Seq<AbortedTransactions>,
    pub preferred_read_replica: i32,
}

impl View for Partition {
    type V = PartitionView;

    open spec fn view(&self) -> PartitionView {
        PartitionView {
            partition_index: self.partition_index,
            error_code: self.error_code,
            high_watermark: self.high_watermark,
            last_stable_offset: self.last_stable_offset,
            log_start_offset: self.log_start_offset,
            aborted_transactions: self.aborted_transactions@,
            preferred_read_replica: self.preferred_read_replica,
        }
    }
}

impl Default for Partition {
    fn default() -> (r: Self)
        ensures
            r@ == (PartitionView {
                partition_index: 0,
                error_code: ErrorCode::NoError,
                high_watermark: 0,
                last_stable_offset: 0,
                log_start_offset: 0,
                aborted_transactions: Seq::empty(),
                preferred_read_replica: 0,
            }),
    {
        let r = Partition {
            partition_index: 0,
            error_code: ErrorCode::NoError,
            high_watermark: 0,
            last_stable_offset: 0,
            log_start_offset: 0,
            aborted_transactions: CompactArray::default(),
            preferred_read_replica: 0,
            records: CompactRecords {},
            _tagged_fields: TaggedFields,
        };
        assert(r.aborted_transactions@ =~= Seq::<AbortedTransactions>::empty());
        r
    }
}

/// A partition answer is laid out contiguously: partition index at 0..4,
/// error code at 4..6, high watermark, last stable offset and log start offset
/// at 6..30, the aborted transactions from 30, then the preferred read replica
/// (4 bytes), the records byte 0x01 and the empty tagged-field count.
pub proof fn law_partition_layout(v: PartitionView)
    ensures
        ({
            let bytes = Partition::spec_bytes(v);
            let aborted = CompactArray::<AbortedTransactions>::spec_bytes(v.aborted_transactions);
            let a = aborted.len() as int;
            &&& bytes.len() == 36 + a
            &&& bytes.subrange(0, 4) == i32_be(v.partition_index)
            &&& bytes.subrange(4, 6) == i16_be(v.error_code.spec_code())
            &&& bytes.subrange(6, 14) == i64_be(v.high_watermark)
            &&& bytes.subrange(14, 22) == i64_be(v.last_stable_offset)
            &&& bytes.subrange(22, 30) == i64_be(v.log_start_offset)
            &&& bytes.subrange(30, 30 + a) == aborted
            &&& bytes.subrange(30 + a, 34 + a) == i32_be(v.preferred_read_replica)
            &&& bytes[34 + a] == 1u8
            &&& bytes[35 + a] == 0u8
        }),
{
    let bytes = Partition::spec_bytes(v);
    let aborted = CompactArray::<AbortedTransactions>::spec_bytes(v.aborted_transactions);
    let a = aborted.len() as int;
    let p0 = i32_be(v.partition_index);
    let p1 = i16_be(v.error_code.spec_code());
    let p2 = i64_be(v.high_watermark);
    let p3 = i64_be(v.last_stable_offset);
    let p4 = i64_be(v.log_start_offset);
    let p6 = i32_be(v.preferred_read_replica);
    assert(p2.len() == 8 && p3.len() == 8 && p4.len() == 8);
    assert(bytes.subrange(0, 4) =~= p0);
    assert(bytes.subrange(4, 6) =~= p1);
    assert(bytes.subrange(6, 14) =~= p2);
    assert(bytes.subrange(14, 22) =~= p3);
    assert(bytes.subrange(22, 30) =~= p4);
    assert(bytes.subrange(30, 30 + a) =~= aborted);
    assert(bytes.subrange(30 + a, 34 + a) =~= p6);
}

impl Serialize for Partition {
    open spec fn spec_bytes(v: PartitionView) -> Seq<u8> {
        i32_be(v.partition_index) + i16_be(v.error_code.spec_code()) + i64_be(v.high_watermark)
            + i64_be(v.last_stable_offset) + i64_be(v.log_start_offset)
            + CompactArray::<AbortedTransactions>::spec_bytes(v.aborted_transactions) + i32_be(
            v.preferred_read_replica,
        ) + CompactRecords::spec_bytes(()) + TaggedFields::spec_bytes(())
    }

    fn write(&self, buf: &mut [u8]) -> (r: Result<usize, SerializeError>) {
        let ghost a = i32_be(self.partition_index);
        let ghost b = i16_be(self.error_code.spec_code());
        let ghost c = i64_be(self.high_watermark);
        let ghost d = i64_be(self.last_stable_offset);
        let ghost e = i64_be(self.log_start_offset);
        let ghost f = CompactArray::<AbortedTransactions>::spec_bytes(self.aborted_transactions@);
        let ghost g = i32_be(self.preferred_read_replica);
        let ghost h = CompactRecords::spec_bytes(());
        let ghost k = TaggedFields::spec_bytes(());
        // The length of `buf` is a `usize`: it bounds the offsets below.
        let total = buf.len();
        let ghost o = old(buf)@;
        put_i32_at(buf, 0, self.partition_index);
        assert(buf@ =~= splice(o, 0, a));
        put_i16_at(buf, 4, self.error_code.code());
        proof { lemma_splice_extend(o, a, b); }
        put_i64_at(buf, 6, self.high_watermark);
        proof { lemma_splice_extend(o, a + b, c); }
        put_i64_at(buf, 14, self.last_stable_offset);
        proof { lemma_splice_extend(o, a + b + c, d); }
        put_i64_at(buf, 22, self.log_start_offset);
        proof { lemma_splice_extend(o, a + b + c + d, e); }
        let mut s: usize = 30;
        s = s + write_at(&self.aborted_transactions, buf, s);
        proof { lemma_splice_extend(o, a + b + c + d + e, f); }
        put_i32_at(buf, s, self.preferred_read_replica);
        proof { lemma_splice_extend(o, a + b + c + d + e + f, g); }
        s = s + 4;
        s = s + write_at(&self.records, buf, s);
        proof { lemma_splice_extend(o, a + b + c + d + e + f + g, h); }
        s = s + write_at(&self._tagged_fields, buf, s);
        proof { lemma_splice_extend(o, a + b + c + d + e + f + g + h, k); }
        Ok(s)
    }

    fn encoded_len(&self) -> (r: Option<usize>) {
        match self.aborted_transactions.encoded_len() {
            Some(n) => if n <= usize::MAX - 36 {
                Some(n + 36)
            } else {
                None
            },
            None => None,
        }
    }
}

///       aborted_transactions => producer_id first_offset _tagged_fields
///         producer_id => INT64
///         first_offset => INT64
#[derive(Debug, Clone)]
pub struct AbortedTransactions {
    pub producer_id: i64,
    pub first_offset: i64,
    pub _tagged_fields: TaggedFields,
}

impl View for AbortedTransactions {
    type V = AbortedTransactions;

    open spec fn view(&self) -> AbortedTransactions {
        *self
    }
}

impl Default for AbortedTransactions {
    fn default() -> (r: Self)
        ensures
            r.producer_id == 0,
            r.first_offset == 0,
    {
        AbortedTransactions { producer_id: 0, first_offset: 0, _tagged_fields: TaggedFields }
    }
}

impl Serialize for AbortedTransactions {
    open spec fn spec_bytes(v: AbortedTransactions) -> Seq<u8> {
        i64_be(v.producer_id) + i64_be(v.first_offset) + TaggedFields::spec_bytes(())
    }

    fn write(&self, buf: &mut [u8]) -> (r: Result<usize, SerializeError>) {
        put_i64_at(buf, 0, self.producer_id);
        put_i64_at(buf, 8, self.first_offset);
        let s = write_at(&self._tagged_fields, buf, 16);
        assert(buf@ =~= splice(old(buf)@, 0, Self::spec_bytes(self@)));
        Ok(16 + s)
    }

    fn encoded_len(&self) -> (r: Option<usize>) {
        Some(17)
    }
}

} // verus!
