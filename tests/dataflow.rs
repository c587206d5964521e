use rlink::align::{AlignError, BarrierAligner};
use rlink::element::{Element, Record, TaskId};
use rlink::graph::Partitioner;
use rlink::partition::{hash_key, hash_partition};
use rlink::pubsub::route;
use rlink::source::vec_source;
use rlink::element::{DataType, FnSchema};
use rlink::system_input::SystemInputFormat;
use rlink::watermark::WatermarkTracker;

fn rec(t: i64, k: &str) -> Record {
    Record::new(t, Some(k.as_bytes().to_vec()), vec![t as u8])
}

fn ts(e: &Element) -> Option<i64> {
    match e {
        Element::Record(r) => Some(r.timestamp),
        _ => None,
    }
}

#[test]
fn local_echo_keeps_input_order() {
    let mut source = vec_source(vec![rec(0, "a"), rec(1, "b")], FnSchema::Empty, 1);
    source.open(TaskId::new(0, 0, 1));
    let out = source.record_iter();
    assert_eq!(out.len(), 2);
    assert_eq!(out[0].timestamp, 0);
    assert_eq!(out[0].key, Some(b"a".to_vec()));
    assert_eq!(out[1].timestamp, 1);
    assert_eq!(out[1].key, Some(b"b".to_vec()));
}

#[test]
fn vec_source_spreads_records_over_tasks() {
    let data: Vec<Record> = (0..7).map(|i| rec(i, "k")).collect();
    let mut source = vec_source(data, FnSchema::Empty, 3);
    assert_eq!(source.parallelism(), 3);
    source.open(TaskId::new(0, 1, 3));
    let out: Vec<i64> = source.record_iter().iter().map(|r| r.timestamp).collect();
    assert_eq!(out, vec![1, 4]);
}

#[test]
fn hash_partition_sends_one_key_to_one_task() {
    let up = TaskId::new(0, 0, 1);
    let expected = hash_partition(&b"x".to_vec(), 3);
    assert!(expected < 3);
    for i in 0..100 {
        let e = Element::Record(rec(i, "x"));
        assert_eq!(route(&e, Partitioner::HashByKey, up, 3, i as u64), vec![expected]);
    }
}

#[test]
fn key_hash_known_values() {
    assert_eq!(hash_key(&vec![]), 0xcbf29ce484222325);
    assert_eq!(hash_key(&b"a".to_vec()), 0xaf63dc4c8601ec8c);
    assert_eq!(hash_partition(&b"a".to_vec(), 1000), (0xaf63dc4c8601ec8cu64 % 1000) as u16);
}

#[test]
fn hash_partition_is_stable() {
    let key = b"order-42".to_vec();
    let first = hash_partition(&key, 7);
    for _ in 0..10 {
        assert_eq!(hash_partition(&key, 7), first);
    }
}

#[test]
fn control_elements_reach_every_downstream_task() {
    let up = TaskId::new(0, 2, 4);
    assert_eq!(route(&Element::Barrier(5), Partitioner::HashByKey, up, 3, 0), vec![0, 1, 2]);
    assert_eq!(route(&Element::Watermark(9), Partitioner::Forward, up, 2, 0), vec![0, 1]);
    assert_eq!(route(&Element::Record(rec(0, "k")), Partitioner::Forward, up, 3, 0), vec![2]);
    assert_eq!(route(&Element::Record(rec(0, "k")), Partitioner::Rebalance, up, 3, 7), vec![1]);
    assert_eq!(route(&Element::Record(rec(0, "k")), Partitioner::Broadcast, up, 2, 0), vec![0, 1]);
}

#[test]
fn barrier_alignment_two_upstreams() {
    let mut aligner = BarrierAligner::new(2);
    let mut out: Vec<Element> = Vec::new();
    // A: R1, Barrier(5), R2 ; B: R3, R4, Barrier(5)
    let steps: Vec<(usize, Element)> = vec![
        (0, Element::Record(rec(1, "a"))),
        (0, Element::Barrier(5)),
        (0, Element::Record(rec(2, "a"))),
        (1, Element::Record(rec(3, "b"))),
        (1, Element::Record(rec(4, "b"))),
        (1, Element::Barrier(5)),
    ];
    for (ch, e) in steps {
        out.extend(aligner.on_element(ch, e).unwrap());
    }
    assert_eq!(out.len(), 5);
    let barrier_at = out.iter().position(|e| matches!(e, Element::Barrier(5))).unwrap();
    assert_eq!(barrier_at, 3);
    let mut before: Vec<i64> = out[..3].iter().filter_map(ts).collect();
    before.sort();
    assert_eq!(before, vec![1, 3, 4]);
    assert_eq!(ts(&out[4]), Some(2));
    assert_eq!(out.iter().filter(|e| matches!(e, Element::Barrier(_))).count(), 1);
}

#[test]
fn alignment_errors() {
    let mut aligner = BarrierAligner::new(2);
    assert_eq!(aligner.on_element(2, Element::Barrier(1)).unwrap_err(), AlignError::UnknownChannel);
    assert!(aligner.on_element(0, Element::Barrier(1)).unwrap().is_empty());
    assert_eq!(aligner.on_element(0, Element::Barrier(1)).unwrap_err(), AlignError::DuplicateBarrier);
    assert_eq!(aligner.on_element(1, Element::Barrier(2)).unwrap_err(), AlignError::BarrierMismatch);
    let done = aligner.on_element(1, Element::Barrier(1)).unwrap();
    assert_eq!(done.len(), 1);
}

#[test]
fn single_input_forwards_barrier_at_once() {
    let mut aligner = BarrierAligner::new(1);
    let out = aligner.on_element(0, Element::Barrier(3)).unwrap();
    assert!(matches!(out[..], [Element::Barrier(3)]));
    let out = aligner.on_element(0, Element::Watermark(4)).unwrap();
    assert!(matches!(out[..], [Element::Watermark(4)]));
}

#[test]
fn watermark_is_minimum_over_channels() {
    let mut w = WatermarkTracker::new(2);
    assert_eq!(w.on_watermark(0, 10), None);
    assert_eq!(w.on_watermark(1, 7), Some(7));
    assert_eq!(w.on_watermark(1, 20), Some(10));
    assert_eq!(w.on_watermark(0, 9), None);
    assert_eq!(w.on_watermark(0, 15), Some(15));
    assert_eq!(w.on_watermark(5, 100), None);
}

#[test]
fn input_formats_report_schema_parallelism_and_name() {
    let schema = FnSchema::Fields(vec![DataType::Int64, DataType::String]);
    let source = vec_source(vec![], schema, 4);
    assert_eq!(source.parallelism(), 4);
    assert_eq!(source.name(), "IteratorInputFormat");
    assert!(matches!(source.schema(FnSchema::Empty), FnSchema::Fields(f) if f == vec![DataType::Int64, DataType::String]));
    let input = SystemInputFormat::new();
    assert_eq!(input.parallelism(), 0);
    assert_eq!(input.name(), "SystemInputFormat");
    assert!(matches!(input.schema(FnSchema::Fields(vec![DataType::Bool])), FnSchema::Fields(f) if f == vec![DataType::Bool]));
}
