use rlink::kafka::{lookup_timestamp, topic_times, TopicTimestamp};
use rlink::channel::{named_channel_with_base, ChannelBaseOn};
use rlink::elasticsearch::{bulk_line_count, take_batch};
use rlink::element::Record;
use rlink::deployment::{ClusterMode, Resource, ResourceManager};
use rlink::elasticsearch::{bulk_result, next_delay_ms, BatchOutcome, BulkError, Index};

use rlink::kafka::{consumer_range, consumer_range_for, direct_offset, lookup_offset, OffsetRange, PartitionOffset, TopicOffsets, OFFSET_END};
use rlink::output_mapper::OutputMapperFunction;

#[test]
fn index_fields() {
    let mut index = Index::new();
    assert!(index.fields().is_empty());
    index.set_index("logs".to_string());
    index.set_type("_doc".to_string());
    let fields = index.fields();
    assert_eq!(fields, vec![("_index".to_string(), "logs".to_string()), ("_type".to_string(), "_doc".to_string())]);
}

#[test]
fn writer_delays_and_bulk_results() {
    assert_eq!(next_delay_ms(BatchOutcome::Written(0)), 1000);
    assert_eq!(next_delay_ms(BatchOutcome::Written(6)), 0);
    assert_eq!(next_delay_ms(BatchOutcome::Failed), 100);
    assert_eq!(bulk_result(Some(false)), Ok(()));
    assert_eq!(bulk_result(Some(true)), Err(BulkError::DocumentErrors));
    assert_eq!(bulk_result(None), Err(BulkError::MissingErrorsField));
}

#[test]
fn consumer_ranges() {
    let r = consumer_range("t".to_string(), 2, None, None);
    assert_eq!(r.begin_offset, OFFSET_END);
    assert_eq!(r.end_offset, None);
    let b = PartitionOffset { partition: 2, offset: 40 };
    let e = PartitionOffset { partition: 2, offset: 90 };
    let r = consumer_range("t".to_string(), 2, Some(b), Some(e));
    assert_eq!((r.begin_offset, r.end_offset), (40, Some(90)));
    let offsets = vec![PartitionOffset { partition: 0, offset: 5 }, PartitionOffset { partition: 1, offset: 6 }];
    assert_eq!(direct_offset(&offsets, 1), Some(offsets[1]));
    assert_eq!(direct_offset(&offsets, 2), None);
    assert_eq!(direct_offset(&offsets, -1), None);
}

#[test]
fn deployment_modes() {
    assert_eq!(Resource::new(1024, 2), Resource { memory: 1024, cpu_cores: 2 });
    assert_eq!(ClusterMode::parse("YARN"), Some(ClusterMode::Yarn));
    assert_eq!(ClusterMode::parse("kubernetes"), Some(ClusterMode::Kubernetes));
    assert_eq!(ClusterMode::parse("mesos"), None);
    assert_eq!(ResourceManager::new(ClusterMode::Local), ResourceManager::LocalResourceManager);
    assert_eq!(ResourceManager::new(ClusterMode::Standalone).cluster_mode(), ClusterMode::Standalone);
}

#[test]
fn output_mapper_builds_one_keyed_record() {
    let mut f = OutputMapperFunction::new();
    let out = f.flat_map(1700, "k-1", "{\"v\":1}");
    assert_eq!(out.len(), 1);
    assert_eq!(out[0].timestamp, 1700);
    assert_eq!(out[0].key, Some(b"k-1".to_vec()));
    assert_eq!(out[0].body, b"{\"v\":1}".to_vec());
}


#[test]
fn offset_ranges_by_mode() {
    let resume = consumer_range_for(&OffsetRange::Checkpointed, "t".to_string(), 1, Some(77));
    assert_eq!((resume.begin_offset, resume.end_offset), (77, None));
    let fresh = consumer_range_for(&OffsetRange::Checkpointed, "t".to_string(), 1, None);
    assert_eq!(fresh.begin_offset, OFFSET_END);
    let table = || vec![
        TopicOffsets { topic: "t".to_string(), offsets: vec![PartitionOffset { partition: 0, offset: 3 }, PartitionOffset { partition: 1, offset: 4 }] },
        TopicOffsets { topic: "u".to_string(), offsets: vec![PartitionOffset { partition: 0, offset: 9 }] },
    ];
    assert_eq!(lookup_offset(&table(), &"u".to_string(), 0), Some(PartitionOffset { partition: 0, offset: 9 }));
    assert_eq!(lookup_offset(&table(), &"v".to_string(), 0), None);
    let direct = OffsetRange::Direct { begin_offset: table(), end_offset: Some(table()) };
    let r = consumer_range_for(&direct, "t".to_string(), 1, Some(1));
    assert_eq!((r.begin_offset, r.end_offset), (4, Some(4)));
    let r = consumer_range_for(&direct, "t".to_string(), 5, None);
    assert_eq!((r.begin_offset, r.end_offset), (OFFSET_END, None));
}

#[test]
fn time_ranges_per_topic() {
    let table = vec![
        TopicTimestamp { topic: "t".to_string(), timestamp: 100 },
        TopicTimestamp { topic: "u".to_string(), timestamp: 200 },
    ];
    assert_eq!(lookup_timestamp(&table, &"u".to_string()), Some(200));
    assert_eq!(lookup_timestamp(&table, &"v".to_string()), None);
    let range = OffsetRange::Timestamp { begin_timestamp: table, end_timestamp: None };
    assert_eq!(topic_times(&range, &"t".to_string()), Some((Some(100), None)));
    assert_eq!(topic_times(&OffsetRange::Checkpointed, &"t".to_string()), None);
}

#[test]
fn sink_batches_are_bounded() {
    let (mut tx, mut rx) = named_channel_with_base::<Record>("sink", vec![], 10, ChannelBaseOn::Bounded);
    for i in 0..5 {
        tx.send(Record::new(i, None, vec![])).unwrap();
    }
    let (first, stop) = take_batch(&mut rx, 3);
    assert!(stop.is_none());
    assert_eq!(first.iter().map(|r| r.timestamp).collect::<Vec<_>>(), vec![0, 1, 2]);
    let (second, stop) = take_batch(&mut rx, 3);
    assert_eq!(stop, Some(rlink::channel::TryRecvError::Empty));
    assert_eq!(second.len(), 2);
    assert_eq!(rx.drained(), 5);
    assert!(take_batch(&mut rx, 3).0.is_empty());
    assert_eq!(bulk_line_count(second.len()), 4);
}
