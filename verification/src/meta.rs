//! What the broker knows of the cluster: the records of the cluster metadata
//! log and the maps built from them.
use std::collections::HashMap;
use vstd::hash_map::StringHashMap;
use vstd::prelude::*;

verus! {

broadcast use {vstd::std_specs::hash::group_hash_axioms, vstd::hash_map::group_hash_map_axioms};

/// A record of the metadata log that creates a topic.
#[derive(Debug, Clone)]
pub struct TopicRecord {
    pub uuid: u128,
    pub name: String,
}

/// A record of the metadata log that creates a partition of a topic.
#[derive(Debug, Clone, Copy, PartialEq, Eq)]
pub struct PartitionRecord {
    pub partition_id: i32,
    pub topic_uuid: u128,
}

/// The value of a record of the metadata log, by record type.
#[derive(Debug, Clone)]
pub enum RecordValueType {
    Other(Vec<u8>),
    TopicRecord(TopicRecord),
    PartitionRecord(PartitionRecord),
}

/// Topic identifier to topic name, the later record of an identifier winning.
pub open spec fn spec_uuid_names(recs: Seq<RecordValueType>) -> Map<u128, String>
    decreases recs.len(),
{
    if recs.len() == 0 {
        Map::empty()
    } else {
        let m = spec_uuid_names(recs.drop_last());
        match recs.last() {
            RecordValueType::TopicRecord(t) => m.insert(t.uuid, t.name),
            _ => m,
        }
    }
}

/// Topic name to topic identifier, the later record of a name winning.
pub open spec fn spec_name_uuids(recs: Seq<RecordValueType>) -> Map<Seq<char>, u128>
    decreases recs.len(),
{
    if recs.len() == 0 {
        Map::empty()
    } else {
        let m = spec_name_uuids(recs.drop_last());
        match recs.last() {
            RecordValueType::TopicRecord(t) => m.insert(t.name@, t.uuid),
            _ => m,
        }
    }
}

/// Topic identifier to the partition records of the topic, in log order.
pub open spec fn spec_uuid_partitions(recs: Seq<RecordValueType>) -> Map<u128, Seq<PartitionRecord>>
    decreases recs.len(),
{
    if recs.len() == 0 {
        Map::empty()
    } else {
        let m = spec_uuid_partitions(recs.drop_last());
        match recs.last() {
            RecordValueType::PartitionRecord(p) => m.insert(
                p.topic_uuid,
                if m.contains_key(p.topic_uuid) {
                    m[p.topic_uuid].push(p)
                } else {
                    seq![p]
                },
            ),
            _ => m,
        }
    }
}

/// Whether the record at position `i` of `recs` creates a topic with the
/// identifier `u`.
pub open spec fn topic_with_uuid(recs: Seq<RecordValueType>, i: int, u: u128) -> bool {
    0 <= i < recs.len() && (recs[i] matches RecordValueType::TopicRecord(t) && t.uuid == u)
}

/// Whether the record at position `i` of `recs` creates a topic named `n`.
pub open spec fn topic_with_name(recs: Seq<RecordValueType>, i: int, n: Seq<char>) -> bool {
    0 <= i < recs.len() && (recs[i] matches RecordValueType::TopicRecord(t) && t.name@ == n)
}

/// Whether the record at position `i` of `recs` creates a partition of the
/// topic `u`.
pub open spec fn partition_of(recs: Seq<RecordValueType>, i: int, u: u128) -> bool {
    0 <= i < recs.len() && (recs[i] matches RecordValueType::PartitionRecord(p) && p.topic_uuid
        == u)
}

/// Whether no two topic records of `recs` share an identifier or a name.
pub open spec fn topics_distinct(recs: Seq<RecordValueType>) -> bool {
    forall|i: int, j: int|
        #![trigger recs[i], recs[j]]
        0 <= i < recs.len() && 0 <= j < recs.len() && i != j ==> (
        recs[i] matches RecordValueType::TopicRecord(a) ==> (
        recs[j] matches RecordValueType::TopicRecord(b) ==> a.uuid != b.uuid && a.name@ != b.name@))
}

/// The identifier map holds exactly the identifiers of the topic records, and
/// each is mapped to the name of the last topic record with that identifier.
pub proof fn law_uuid_names(recs: Seq<RecordValueType>, u: u128)
    ensures
        spec_uuid_names(recs).contains_key(u) <==> exists|i: int| #[trigger]
            topic_with_uuid(recs, i, u),
        forall|i: int|
            #[trigger] topic_with_uuid(recs, i, u) && (forall|j: int|
                i < j ==> !topic_with_uuid(recs, j, u)) ==> (
            recs[i] matches RecordValueType::TopicRecord(t) && spec_uuid_names(recs)[u] == t.name),
    decreases recs.len(),
{
    if recs.len() > 0 {
        let init = recs.drop_last();
        let last = recs.len() - 1;
        law_uuid_names(init, u);
        assert forall|i: int| i < last implies #[trigger] topic_with_uuid(recs, i, u)
            == topic_with_uuid(init, i, u) by {
            if 0 <= i {
                assert(init[i] == recs[i]);
            }
        }
        assert forall|i: int|
            #[trigger] topic_with_uuid(recs, i, u) && (forall|j: int|
                i < j ==> !topic_with_uuid(recs, j, u)) implies (recs[i] matches RecordValueType::TopicRecord(
            t) && spec_uuid_names(recs)[u] == t.name) by {
            if i < last {
                assert(!topic_with_uuid(recs, last, u));
                assert(init[i] == recs[i]);
                assert forall|j: int| i < j implies !#[trigger] topic_with_uuid(init, j, u) by {
                    if j < last {
                        assert(topic_with_uuid(recs, j, u) == topic_with_uuid(init, j, u));
                    }
                }
            }
        }
        if topic_with_uuid(recs, last, u) {
            assert(topic_with_uuid(recs, last, u));
        } else {
            if spec_uuid_names(recs).contains_key(u) {
                let i = choose|i: int| #[trigger] topic_with_uuid(init, i, u);
                assert(topic_with_uuid(recs, i, u));
            }
        }
    }
}

/// The name map holds exactly the names of the topic records, and each is
/// mapped to the identifier of the last topic record with that name.
pub proof fn law_name_uuids(recs: Seq<RecordValueType>, n: Seq<char>)
    ensures
        spec_name_uuids(recs).contains_key(n) <==> exists|i: int| #[trigger]
            topic_with_name(recs, i, n),
        forall|i: int|
            #[trigger] topic_with_name(recs, i, n) && (forall|j: int|
                i < j ==> !topic_with_name(recs, j, n)) ==> (
            recs[i] matches RecordValueType::TopicRecord(t) && spec_name_uuids(recs)[n] == t.uuid),
    decreases recs.len(),
{
    if recs.len() > 0 {
        let init = recs.drop_last();
        let last = recs.len() - 1;
        law_name_uuids(init, n);
        assert forall|i: int| i < last implies #[trigger] topic_with_name(recs, i, n)
            == topic_with_name(init, i, n) by {
            if 0 <= i {
                assert(init[i] == recs[i]);
            }
        }
        assert forall|i: int|
            #[trigger] topic_with_name(recs, i, n) && (forall|j: int|
                i < j ==> !topic_with_name(recs, j, n)) implies (recs[i] matches RecordValueType::TopicRecord(
            t) && spec_name_uuids(recs)[n] == t.uuid) by {
            if i < last {
                assert(!topic_with_name(recs, last, n));
                assert(init[i] == recs[i]);
                assert forall|j: int| i < j implies !#[trigger] topic_with_name(init, j, n) by {
                    if j < last {
                        assert(topic_with_name(recs, j, n) == topic_with_name(init, j, n));
                    }
                }
            }
        }
        if topic_with_name(recs, last, n) {
            assert(topic_with_name(recs, last, n));
        } else {
            if spec_name_uuids(recs).contains_key(n) {
                let i = choose|i: int| #[trigger] topic_with_name(init, i, n);
                assert(topic_with_name(recs, i, n));
            }
        }
    }
}

/// A topic has partitions in the partition map exactly when a partition
/// record names it, and then it holds at least one partition record, each of
/// them of that topic.
pub proof fn law_uuid_partitions(recs: Seq<RecordValueType>, u: u128)
    ensures
        spec_uuid_partitions(recs).contains_key(u) <==> exists|i: int| #[trigger]
            partition_of(recs, i, u),
        spec_uuid_partitions(recs).contains_key(u) ==> spec_uuid_partitions(recs)[u].len() >= 1,
        spec_uuid_partitions(recs).contains_key(u) ==> forall|k: int|
            0 <= k < spec_uuid_partitions(recs)[u].len() ==> (#[trigger] spec_uuid_partitions(
                recs,
            )[u][k]).topic_uuid == u,
    decreases recs.len(),
{
    if recs.len() > 0 {
        let init = recs.drop_last();
        let last = recs.len() - 1;
        law_uuid_partitions(init, u);
        assert forall|i: int| i < last implies #[trigger] partition_of(recs, i, u)
            == partition_of(init, i, u) by {
            if 0 <= i {
                assert(init[i] == recs[i]);
            }
        }
        if partition_of(recs, last, u) {
            assert(partition_of(recs, last, u));
        } else {
            if spec_uuid_partitions(recs).contains_key(u) {
                let i = choose|i: int| #[trigger] partition_of(init, i, u);
                assert(partition_of(recs, i, u));
            }
        }
    }
}

/// The partition records of the topic `u` in `recs`, in log order.
pub open spec fn partition_records_of(recs: Seq<RecordValueType>, u: u128) -> Seq<PartitionRecord> {
    recs.filter_map(
        |r: RecordValueType|
            match r {
                RecordValueType::PartitionRecord(p) => if p.topic_uuid == u {
                    Some(p)
                } else {
                    None
                },
                _ => None,
            },
    )
}

/// The partition list of a topic is exactly the partition records of that
/// topic, all of them and in log order; a topic without partition records has
/// no list.
pub proof fn law_partition_lists(recs: Seq<RecordValueType>, u: u128)
    ensures
        spec_uuid_partitions(recs).contains_key(u) ==> spec_uuid_partitions(recs)[u]
            == partition_records_of(recs, u),
        !spec_uuid_partitions(recs).contains_key(u) ==> partition_records_of(recs, u).len() == 0,
    decreases recs.len(),
{
    if recs.len() > 0 {
        let init = recs.drop_last();
        law_partition_lists(init, u);
        if let RecordValueType::PartitionRecord(p) = recs.last() {
            if p.topic_uuid == u {
                if spec_uuid_partitions(init).contains_key(u) {
                    assert(spec_uuid_partitions(init)[u].push(p) =~= partition_records_of(init, u)
                        + seq![p]);
                } else {
                    assert(seq![p] =~= partition_records_of(init, u) + seq![p]);
                }
            }
        }
    }
}

/// Where no two topic records share an identifier or a name, the name map and
/// the identifier map are inverse to each other and have the same size.
pub proof fn law_names_match_uuids(recs: Seq<RecordValueType>)
    requires
        topics_distinct(recs),
    ensures
        forall|n: Seq<char>, u: u128|
            #![trigger spec_name_uuids(recs).contains_key(n), spec_uuid_names(recs).contains_key(u)]
            (spec_name_uuids(recs).contains_key(n) && spec_name_uuids(recs)[n] == u) <==> (
            spec_uuid_names(recs).contains_key(u) && spec_uuid_names(recs)[u]@ == n),
        spec_name_uuids(recs).dom().finite(),
        spec_uuid_names(recs).dom().finite(),
        spec_name_uuids(recs).len() == spec_uuid_names(recs).len(),
    decreases recs.len(),
{
    if recs.len() > 0 {
        let init = recs.drop_last();
        let last = recs.len() - 1;
        assert forall|i: int| 0 <= i < last implies #[trigger] init[i] == recs[i] by {}
        assert(topics_distinct(init)) by {
            assert forall|i: int, j: int|
                #![trigger init[i], init[j]]
                0 <= i < init.len() && 0 <= j < init.len() && i != j implies (
            init[i] matches RecordValueType::TopicRecord(a) ==> (
            init[j] matches RecordValueType::TopicRecord(b) ==> a.uuid != b.uuid && a.name@
                != b.name@)) by {
                assert(recs[i] == init[i] && recs[j] == init[j]);
            }
        }
        law_names_match_uuids(init);
        if let RecordValueType::TopicRecord(t) = recs[last] {
            law_name_uuids(init, t.name@);
            law_uuid_names(init, t.uuid);
            assert(!spec_name_uuids(init).contains_key(t.name@)) by {
                if spec_name_uuids(init).contains_key(t.name@) {
                    let i = choose|i: int| #[trigger] topic_with_name(init, i, t.name@);
                    assert(recs[i] == init[i]);
                    assert(recs[last] == recs[last]);
                }
            }
            assert(!spec_uuid_names(init).contains_key(t.uuid)) by {
                if spec_uuid_names(init).contains_key(t.uuid) {
                    let i = choose|i: int| #[trigger] topic_with_uuid(init, i, t.uuid);
                    assert(recs[i] == init[i]);
                    assert(recs[last] == recs[last]);
                }
            }
            assert(spec_name_uuids(recs).dom() == spec_name_uuids(init).dom().insert(t.name@));
            assert(spec_uuid_names(recs).dom() == spec_uuid_names(init).dom().insert(t.uuid));
        }
    }
}

/// The maps that the broker looks topics up in.
pub struct Maps {
    map_uuid_name: HashMap<u128, String>,
    map_name_uuid: StringHashMap<u128>,
    map_uuid_partition: HashMap<u128, Vec<PartitionRecord>>,
}

impl Maps {
    /// Topic identifier to topic name.
    pub closed spec fn uuid_names(&self) -> Map<u128, String> {
        self.map_uuid_name@
    }

    /// Topic name to topic identifier.
    pub closed spec fn name_uuids(&self) -> Map<Seq<char>, u128> {
        self.map_name_uuid@
    }

    /// Topic identifier to the partition records of the topic.
    pub closed spec fn uuid_partition_records(&self) -> Map<u128, Seq<PartitionRecord>> {
        Map::new(
            |k: u128| self.map_uuid_partition@.contains_key(k),
            |k: u128| self.map_uuid_partition@[k]@,
        )
    }

    /// The identifiers of the known topics.
    pub open spec fn topics(&self) -> Set<u128> {
        self.uuid_names().dom()
    }

    pub fn name_map(&self) -> (r: &StringHashMap<u128>)
        ensures
            r@ == self.name_uuids(),
    {
        &self.map_name_uuid
    }

    pub fn uuid_map(&self) -> (r: &HashMap<u128, String>)
        ensures
            r@ == self.uuid_names(),
    {
        &self.map_uuid_name
    }

    pub fn uuid_partitions(&self) -> (r: &HashMap<u128, Vec<PartitionRecord>>)
        ensures
            r@.dom() == self.uuid_partition_records().dom(),
            forall|k: u128| #[trigger]
                r@.contains_key(k) ==> r@[k]@ == self.uuid_partition_records()[k],
    {
        &self.map_uuid_partition
    }

    /// Builds the maps from the records of the metadata log.
    pub fn generate_maps(rec: &Vec<RecordValueType>) -> (r: Self)
        ensures
            r.uuid_names() == spec_uuid_names(rec@),
            r.name_uuids() == spec_name_uuids(rec@),
            r.uuid_partition_records() == spec_uuid_partitions(rec@),
    {
        let mut uuid_name: HashMap<u128, String> = HashMap::new();
        let mut name_uuid: StringHashMap<u128> = StringHashMap::new();
        let mut uuid_partitions: HashMap<u128, Vec<PartitionRecord>> = HashMap::new();
        let n = rec.len();
        let mut i: usize = 0;
        proof {
            assert(rec@.take(0) =~= Seq::<RecordValueType>::empty());
        }
        while i < n
            invariant
                n == rec@.len(),
                i <= n,
                uuid_name@ == spec_uuid_names(rec@.take(i as int)),
                name_uuid@ == spec_name_uuids(rec@.take(i as int)),
                uuid_partitions@.dom() == spec_uuid_partitions(rec@.take(i as int)).dom(),
                forall|k: u128| #[trigger]
                    uuid_partitions@.contains_key(k) ==> uuid_partitions@[k]@
                        == spec_uuid_partitions(rec@.take(i as int))[k],
            decreases n - i,
        {
            let ghost before = rec@.take(i as int);
            proof {
                assert(rec@.take(i + 1).drop_last() =~= before);
                assert(rec@.take(i + 1).last() == rec@[i as int]);
            }
            match &rec[i] {
                RecordValueType::Other(_items) => {},
                RecordValueType::TopicRecord(topic_record) => {
                    uuid_name.insert(topic_record.uuid, topic_record.name.clone());
                    name_uuid.insert(topic_record.name.clone(), topic_record.uuid);
                },
                RecordValueType::PartitionRecord(partition_record) => {
                    let tuuid = partition_record.topic_uuid;
                    let ghost m = spec_uuid_partitions(before);
                    match uuid_partitions.remove(&tuuid) {
                        Some(mut v) => {
                            v.push(*partition_record);
                            uuid_partitions.insert(tuuid, v);
                        },
                        None => {
                            let mut v: Vec<PartitionRecord> = Vec::new();
                            v.push(*partition_record);
                            uuid_partitions.insert(tuuid, v);
                        },
                    }
                    proof {
                        let m2 = spec_uuid_partitions(rec@.take(i + 1));
                        assert(uuid_partitions@.dom() =~= m2.dom());
                    }
                },
            }
            i = i + 1;
        }
        proof {
            assert(rec@.take(n as int) =~= rec@);
        }
        let r = Self {
            map_uuid_name: uuid_name,
            map_name_uuid: name_uuid,
            map_uuid_partition: uuid_partitions,
        };
        assert(r.uuid_partition_records() =~= spec_uuid_partitions(rec@));
        r
    }
}

/// The cluster metadata: where the log lies, its records and the maps built
/// from them.
pub struct Meta {
    path: String,
    pub rec: Vec<RecordValueType>,
    maps: Maps,
}

impl Meta {
    /// The log directory that the metadata was read from.
    pub closed spec fn spec_path(&self) -> Seq<char> {
        self.path@
    }

    /// The records of the log.
    pub closed spec fn spec_rec(&self) -> Seq<RecordValueType> {
        self.rec@
    }

    /// The maps built from the records.
    pub closed spec fn spec_maps(&self) -> Maps {
        self.maps
    }

    pub fn path(&self) -> (r: &str)
        ensures
            r@ == self.spec_path(),
    {
        self.path.as_str()
    }

    /// The metadata of the log under `path` whose records are `rec`.
    pub fn from_records(path: String, rec: Vec<RecordValueType>) -> (r: Self)
        ensures
            r.spec_path() == path@,
            r.spec_rec() == rec@,
            r.spec_maps().uuid_names() == spec_uuid_names(rec@),
            r.spec_maps().uuid_partition_records() == spec_uuid_partitions(rec@),
            r.spec_maps().name_uuids() == spec_name_uuids(rec@),
    {
        let maps = Maps::generate_maps(&rec);
        Self { maps, rec, path }
    }
}

impl core::ops::Deref for Meta {
    type Target = Maps;

    fn deref(&self) -> (r: &Maps)
        ensures
            *r == self.spec_maps(),
    {
        &self.maps
    }
}

} // verus!
