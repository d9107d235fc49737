//! Answering a Fetch request.
use crate::messages::primitives::{CompactArray, CompactRecords, TaggedFields, Uuid};
use crate::messages::requests;
use crate::messages::requests::fetch::{FetchView, TopicView};
use crate::messages::responses;
use crate::messages::responses::fetch::{PartitionView, ResponseView};
use crate::messages::ErrorCode;
use crate::meta::Meta;
use vstd::prelude::*;

verus! {

broadcast use vstd::std_specs::hash::group_hash_axioms;

/// The error code of the partitions of a topic: none for a known topic,
/// UnknownTopic otherwise.
pub open spec fn topic_error(topic_id: u128, topics: Set<u128>) -> ErrorCode {
    if topics.contains(topic_id) {
        ErrorCode::NoError
    } else {
        ErrorCode::UnknownTopic
    }
}

/// The answer for one requested partition: its index and the error code of
/// its topic, every other field zero or empty.
pub open spec fn spec_partition_response(
    p: requests::fetch::Partition,
    error_code: ErrorCode,
) -> PartitionView {
    PartitionView {
        partition_index: p.partition,
        error_code,
        high_watermark: 0,
        last_stable_offset: 0,
        log_start_offset: 0,
        aborted_transactions: Seq::empty(),
        preferred_read_replica: 0,
    }
}

/// The answer for one requested topic: one partition answer per requested
/// partition, in the order of the request.
pub open spec fn spec_topic_response(t: TopicView, topics: Set<u128>) -> ResponseView {
    ResponseView {
        topic_id: t.topic_id,
        partitions: t.partitions.map_values(
            |p: requests::fetch::Partition| spec_partition_response(p, topic_error(t.topic_id, topics)),
        ),
    }
}

/// The answer to a Fetch request of version `version` when the known topics
/// are `topics`: version 16 gets one answer per requested topic, in the order
/// of the request; any other version gets UnsupportedVersion and no answers.
/// The session id is echoed either way.
pub open spec fn spec_fetch_response(version: i16, f: FetchView, topics: Set<u128>) -> responses::fetch::FetchView {
    if version != 16 {
        responses::fetch::FetchView {
            throttle_time_ms: 0,
            error_code: ErrorCode::UnsupportedVersion,
            session_id: f.session_id,
            responses: Seq::empty(),
        }
    } else {
        responses::fetch::FetchView {
            throttle_time_ms: 0,
            error_code: ErrorCode::NoError,
            session_id: f.session_id,
            responses: f.topics.map_values(|t: TopicView| spec_topic_response(t, topics)),
        }
    }
}

/// A Fetch request of version 16 gets no error, its session id back, no
/// throttle, and one answer per requested topic in the order of the request:
/// the topic's id and one answer per requested partition, in order, with the
/// partition's index and no error for a known topic, UnknownTopic for another,
/// and every other field zero or empty.
/// Any other version gets UnsupportedVersion, its session id and no answers.
pub proof fn law_fetch_versions(version: i16, f: FetchView, topics: Set<u128>)
    ensures
        ({
            let r = spec_fetch_response(version, f, topics);
            &&& r.session_id == f.session_id
            &&& r.throttle_time_ms == 0
            &&& version != 16 ==> r.error_code == ErrorCode::UnsupportedVersion
                && r.responses.len() == 0
            &&& version == 16 ==> {
                &&& r.error_code == ErrorCode::NoError
                &&& r.responses.len() == f.topics.len()
                &&& forall|i: int|
                    #![trigger r.responses[i]]
                    0 <= i < f.topics.len() ==> {
                        &&& r.responses[i].topic_id == f.topics[i].topic_id
                        &&& r.responses[i].partitions.len() == f.topics[i].partitions.len()
                        &&& forall|k: int|
                            #![trigger r.responses[i].partitions[k]]
                            0 <= k < f.topics[i].partitions.len() ==> {
                                &&& r.responses[i].partitions[k].partition_index
                                    == f.topics[i].partitions[k].partition
                                &&& r.responses[i].partitions[k].error_code == topic_error(
                                    f.topics[i].topic_id,
                                    topics,
                                )
                                &&& (topics.contains(f.topics[i].topic_id)
                                    <==> r.responses[i].partitions[k].error_code
                                    == ErrorCode::NoError)
                                &&& r.responses[i].partitions[k].high_watermark == 0
                                &&& r.responses[i].partitions[k].last_stable_offset == 0
                                &&& r.responses[i].partitions[k].log_start_offset == 0
                                &&& r.responses[i].partitions[k].aborted_transactions.len() == 0
                                &&& r.responses[i].partitions[k].preferred_read_replica == 0
                            }
                    }
            }
        }),
{
}

/// Answers a Fetch request.
pub fn handle_fetch(
    header: requests::Header,
    fetch_request: requests::fetch::Fetch,
    meta: &Meta,
) -> (r: responses::fetch::Fetch)
    ensures
        r@ == spec_fetch_response(header.request_api_version, fetch_request@, meta.spec_maps().topics()),
{
    if header.request_api_version != 16 {
        let mut f = responses::fetch::Fetch::default();
        f.session_id = fetch_request.session_id;
        f.error_code = ErrorCode::UnsupportedVersion;
        return f;
    }
    let responses = handle_responses(&fetch_request, meta);
    let responses = CompactArray { vec: responses };
    let mut f = responses::fetch::Fetch::default();
    f.responses = responses;
    f.session_id = fetch_request.session_id;
    f
}

fn handle_responses(
    fetch_request: &requests::fetch::Fetch,
    meta: &Meta,
) -> (r: Vec<responses::fetch::Response>)
    ensures
        r@.map_values(|x: responses::fetch::Response| x@) == fetch_request@.topics.map_values(
            |t: TopicView| spec_topic_response(t, meta.spec_maps().topics()),
        ),
{
    let topics = meta.uuid_map();
    let ghost known = meta.spec_maps().topics();
    let ghost want = fetch_request@.topics.map_values(|t: TopicView| spec_topic_response(t, known));
    let requested = &fetch_request.topics.vec;
    let n = requested.len();
    let mut res: Vec<responses::fetch::Response> = Vec::new();
    let mut i: usize = 0;
    while i < n
        invariant
            n == requested@.len(),
            requested == &fetch_request.topics.vec,
            topics@.dom() == known,
            want == fetch_request@.topics.map_values(|t: TopicView| spec_topic_response(t, known)),
            i <= n,
            res@.len() == i,
            forall|k: int| 0 <= k < i ==> (#[trigger] res@[k])@ == want[k],
        decreases n - i,
    {
        let topic = &requested[i];
        let error_code = if topics.contains_key(&topic.topic_id.uuid) {
            ErrorCode::NoError
        } else {
            ErrorCode::UnknownTopic
        };
        let ghost tv = topic@;
        assert(error_code == topic_error(tv.topic_id, known));
        let ghost pwant = tv.partitions.map_values(
            |p: requests::fetch::Partition| spec_partition_response(p, error_code),
        );
        let ps = &topic.partitions.vec;
        let m = ps.len();
        let mut partitions: Vec<responses::fetch::Partition> = Vec::new();
        let mut j: usize = 0;
        while j < m
            invariant
                m == ps@.len(),
                ps == &topic.partitions.vec,
                tv == topic@,
                pwant == tv.partitions.map_values(
                    |p: requests::fetch::Partition| spec_partition_response(p, error_code),
                ),
                j <= m,
                partitions@.len() == j,
                forall|k: int| 0 <= k < j ==> (#[trigger] partitions@[k])@ == pwant[k],
            decreases m - j,
        {
            let p = &ps[j];
            let part = responses::fetch::Partition {
                partition_index: p.partition,
                error_code,
                high_watermark: 0,
                last_stable_offset: 0,
                log_start_offset: 0,
                aborted_transactions: CompactArray::default(),
                preferred_read_replica: 0,
                records: CompactRecords {},
                _tagged_fields: TaggedFields,
            };
            proof {
                assert(part.aborted_transactions@ =~= Seq::<responses::fetch::AbortedTransactions>::empty());
                assert(tv.partitions[j as int] == ps@[j as int]@);
            }
            partitions.push(part);
            j = j + 1;
        }
        let partitions = CompactArray { vec: partitions };
        assert(partitions@ =~= pwant);
        let response = responses::fetch::Response {
            topic_id: Uuid { uuid: topic.topic_id.uuid },
            partitions,
            _tagged_fields: TaggedFields,
        };
        assert(fetch_request@.topics[i as int] == requested@[i as int]@);
        res.push(response);
        i = i + 1;
    }
    assert(res@.map_values(|x: responses::fetch::Response| x@) =~= want);
    res
}

} // verus!
