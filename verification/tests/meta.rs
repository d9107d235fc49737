use kafka_broker::meta::{Maps, Meta, PartitionRecord, RecordValueType, TopicRecord};

fn records() -> Vec<RecordValueType> {
    vec![
        RecordValueType::TopicRecord(TopicRecord { uuid: 1, name: "foo".to_string() }),
        RecordValueType::PartitionRecord(PartitionRecord { partition_id: 0, topic_uuid: 1 }),
        RecordValueType::Other(vec![0x0c]),
        RecordValueType::PartitionRecord(PartitionRecord { partition_id: 1, topic_uuid: 1 }),
        RecordValueType::TopicRecord(TopicRecord { uuid: 2, name: "bar".to_string() }),
        RecordValueType::PartitionRecord(PartitionRecord { partition_id: 0, topic_uuid: 3 }),
    ]
}

#[test]
fn maps_from_records() {
    let maps = Maps::generate_maps(&records());
    assert_eq!(maps.uuid_map().len(), 2);
    assert_eq!(maps.uuid_map().get(&1).map(|s| s.as_str()), Some("foo"));
    assert_eq!(maps.uuid_map().get(&2).map(|s| s.as_str()), Some("bar"));
    assert_eq!(maps.name_map().get("foo"), Some(&1));
    assert_eq!(maps.name_map().get("bar"), Some(&2));
    let parts = maps.uuid_partitions();
    assert_eq!(parts.len(), 2);
    assert_eq!(
        parts.get(&1).unwrap(),
        &vec![
            PartitionRecord { partition_id: 0, topic_uuid: 1 },
            PartitionRecord { partition_id: 1, topic_uuid: 1 },
        ]
    );
    assert_eq!(parts.get(&3).unwrap(), &vec![PartitionRecord { partition_id: 0, topic_uuid: 3 }]);
}

#[test]
fn later_topic_record_wins() {
    let recs = vec![
        RecordValueType::TopicRecord(TopicRecord { uuid: 1, name: "old".to_string() }),
        RecordValueType::TopicRecord(TopicRecord { uuid: 1, name: "new".to_string() }),
    ];
    let maps = Maps::generate_maps(&recs);
    assert_eq!(maps.uuid_map().get(&1).map(|s| s.as_str()), Some("new"));
    assert_eq!(maps.name_map().len(), 2);
}

#[test]
fn meta_keeps_path_and_records() {
    let meta = Meta::from_records("/tmp/kraft-combined-logs/".to_string(), records());
    assert_eq!(meta.path(), "/tmp/kraft-combined-logs/");
    assert_eq!(meta.rec.len(), 6);
    assert!(meta.uuid_map().contains_key(&2));
}

#[test]
fn names_and_uuids_are_inverse() {
    let recs = vec![
        RecordValueType::TopicRecord(TopicRecord { uuid: 7, name: "a".to_string() }),
        RecordValueType::Other(vec![]),
        RecordValueType::TopicRecord(TopicRecord { uuid: 9, name: "b".to_string() }),
        RecordValueType::TopicRecord(TopicRecord { uuid: 11, name: "c".to_string() }),
    ];
    let maps = Maps::generate_maps(&recs);
    assert_eq!(maps.name_map().len(), maps.uuid_map().len());
    for (name, uuid) in [("a", 7u128), ("b", 9), ("c", 11)] {
        assert_eq!(maps.name_map().get(name), Some(&uuid));
        assert_eq!(maps.uuid_map().get(&uuid).map(|s| s.as_str()), Some(name));
    }
    assert_eq!(maps.name_map().get("d"), None);
    assert!(!maps.uuid_map().contains_key(&8));
}

#[test]
fn later_name_record_wins() {
    let recs = vec![
        RecordValueType::TopicRecord(TopicRecord { uuid: 1, name: "same".to_string() }),
        RecordValueType::TopicRecord(TopicRecord { uuid: 2, name: "same".to_string() }),
    ];
    let maps = Maps::generate_maps(&recs);
    assert_eq!(maps.name_map().get("same"), Some(&2));
    assert_eq!(maps.name_map().len(), 1);
    assert_eq!(maps.uuid_map().len(), 2);
}

#[test]
fn partition_lists_hold_their_topic() {
    let maps = Maps::generate_maps(&records());
    for (uuid, parts) in maps.uuid_partitions().iter() {
        assert!(!parts.is_empty());
        assert!(parts.iter().all(|p| p.topic_uuid == *uuid));
    }
    assert!(!maps.uuid_partitions().contains_key(&2));
}
