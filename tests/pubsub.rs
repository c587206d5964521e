use rlink::channel::ChannelBaseOn;
use rlink::element::{Element, Record, TaskId};
use rlink::graph::Partitioner;
use rlink::partition::hash_partition;
use rlink::pubsub::MemoryPubSub;
use rlink::system_input::{ElementIterator, OpenError, SystemInputFormat, DEFAULT_CHANNEL_SIZE};
use rlink::graph::ExecutionEdge;

#[test]
fn hash_partitioned_records_reach_exactly_one_downstream() {
    let up = TaskId::new(0, 0, 1);
    let downs: Vec<TaskId> = (0..3).map(|t| TaskId::new(1, t, 3)).collect();
    let mut wiring = MemoryPubSub::new();
    let mut receivers: Vec<_> = downs
        .iter()
        .map(|d| wiring.subscribe(&vec![up], *d, 0, ChannelBaseOn::Unbounded))
        .collect();
    for i in 0..100 {
        let e = Element::Record(Record::new(i, Some(b"x".to_vec()), vec![]));
        let p = wiring.publish(up, &e, Partitioner::HashByKey, 3, i as u64);
        assert_eq!(p.routes.len(), 1);
        assert_eq!(p.taken, vec![true]);
    }
    let target = hash_partition(&b"x".to_vec(), 3) as usize;
    for (i, rx) in receivers.iter_mut().enumerate() {
        let mut n = 0;
        while rx.try_recv().is_ok() {
            n += 1;
        }
        assert_eq!(n, if i == target { 100 } else { 0 });
    }
    assert_eq!(wiring.publish(up, &Element::Barrier(1), Partitioner::HashByKey, 3, 0).routes, vec![0, 1, 2]);
    for rx in receivers.iter_mut() {
        assert!(matches!(rx.try_recv(), Ok(Element::Barrier(1))));
    }
}

#[test]
fn fan_in_shares_one_channel() {
    let ups: Vec<TaskId> = (0..2).map(|t| TaskId::new(0, t, 2)).collect();
    let down = TaskId::new(1, 0, 1);
    let mut wiring = MemoryPubSub::new();
    let mut rx = wiring.subscribe(&ups, down, 8, ChannelBaseOn::Bounded);
    assert_eq!(wiring.publish(ups[0], &Element::Watermark(1), Partitioner::Forward, 1, 0).routes, vec![0]);
    assert_eq!(wiring.publish(ups[1], &Element::Watermark(2), Partitioner::Forward, 1, 0).routes, vec![1]);
    assert!(matches!(rx.try_recv(), Ok(Element::Watermark(1))));
    assert!(matches!(rx.try_recv(), Ok(Element::Watermark(2))));
    assert!(wiring.publish(TaskId::new(5, 0, 1), &Element::Watermark(3), Partitioner::Forward, 1, 0).routes.is_empty());
}

#[test]
fn hash_partition_end_to_end_through_task_inputs() {
    let up = TaskId::new(0, 0, 1);
    let mut wiring = MemoryPubSub::new();
    let mut iters = Vec::new();
    for d in 0..3u16 {
        let me = TaskId::new(1, d, 3);
        let mut input = SystemInputFormat::new();
        let network = input.open(me, &vec![(up, ExecutionEdge::Memory)], &mut wiring, None, None).unwrap();
        assert!(network.is_empty());
        match input.element_iter() {
            ElementIterator::Single(it) => iters.push(it),
            ElementIterator::Multiple(_) => panic!("one channel expected"),
        }
    }
    for i in 0..100 {
        let e = Element::Record(Record::new(i, Some(b"x".to_vec()), vec![]));
        wiring.publish(up, &e, Partitioner::HashByKey, 3, 0);
    }
    wiring.publish(up, &Element::Barrier(9), Partitioner::HashByKey, 3, 0);
    let target = hash_partition(&b"x".to_vec(), 3) as usize;
    let status = rlink::system_input::CoordinatorStatus::new();
    for (d, it) in iters.iter_mut().enumerate() {
        let mut records = 0;
        loop {
            match it.next(&status) {
                Some(Element::Record(_)) => records += 1,
                Some(Element::Barrier(9)) => break,
                other => panic!("unexpected {:?}", other),
            }
        }
        assert_eq!(records, if d == target { 100 } else { 0 });
    }
}

#[test]
fn open_applies_channel_defaults_and_limits() {
    let me = TaskId::new(1, 0, 1);
    let parents = vec![(TaskId::new(0, 0, 2), ExecutionEdge::Network), (TaskId::new(0, 1, 2), ExecutionEdge::Memory)];
    let mut wiring = MemoryPubSub::new();
    let mut input = SystemInputFormat::new();
    let err = input.open(me, &parents, &mut wiring, Some(usize::MAX), Some(ChannelBaseOn::Bounded));
    assert_eq!(err.unwrap_err(), OpenError::CapacityTooLarge);
    let network = input.open(me, &parents, &mut wiring, Some(2), Some(ChannelBaseOn::Bounded)).unwrap();
    assert_eq!(network, vec![TaskId::new(0, 0, 2)]);
    assert_eq!(wiring.publish(TaskId::new(0, 1, 2), &Element::Watermark(1), Partitioner::Forward, 1, 0).routes, vec![0]);
    assert!(DEFAULT_CHANNEL_SIZE > 0);
    let (_tx, rx) = rlink::channel::named_channel::<Element>("net", vec![], 0);
    input.attach_network(rx);
    assert!(matches!(input.element_iter(), ElementIterator::Multiple(_)));
}

