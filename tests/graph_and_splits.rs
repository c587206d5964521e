use rlink::element::TaskId;
use rlink::graph::{assign_input_split, classify_edge, connect_operators, expand_tasks, ExecutionEdge, Partitioner};
use rlink::splits::{create_input_splits, InputSplit, SplitError, TopicPartition};

fn parts(n: i32) -> Vec<TopicPartition> {
    (0..n).map(|p| TopicPartition::new("events".to_string(), p)).collect()
}

#[test]
fn task_count_is_sum_of_parallelism() {
    let tasks = expand_tasks(&vec![2, 3, 1]);
    assert_eq!(tasks.len(), 6);
    assert_eq!(tasks[0], TaskId::new(0, 0, 2));
    assert_eq!(tasks[2], TaskId::new(1, 0, 3));
    assert_eq!(tasks[5], TaskId::new(2, 0, 1));
    assert!(tasks.iter().all(|t| t.task_number < t.num_tasks));
}

#[test]
fn empty_graph_has_no_tasks() {
    assert!(expand_tasks(&vec![]).is_empty());
    assert!(expand_tasks(&vec![0, 0]).is_empty());
}

#[test]
fn split_replication_two_splits_five_tasks() {
    let splits = create_input_splits(&parts(2), 5).unwrap();
    assert!(splits.len() >= 5);
    assert_eq!(splits.len(), 6);
    let assigned: Vec<InputSplit> = (0..5u16).map(|t| assign_input_split(&splits, t)).collect();
    let numbers: Vec<u16> = assigned.iter().map(|s| s.split_number).collect();
    assert_eq!(numbers, vec![0, 1, 0, 1, 0]);
    let connects: Vec<bool> = assigned.iter().map(|s| s.create_connection).collect();
    assert_eq!(connects, vec![true, true, false, false, false]);
    assert_eq!(assigned[2].partition, 0);
    assert_eq!(assigned[3].partition, 1);
    assert_eq!(assigned[4].topic, "events");
}

#[test]
fn splits_equal_to_parallelism_are_not_replicated() {
    let splits = create_input_splits(&parts(3), 3).unwrap();
    assert_eq!(splits.len(), 3);
    assert!(splits.iter().all(|s| s.create_connection));
}

#[test]
fn too_many_splits_is_an_error() {
    assert_eq!(create_input_splits(&parts(4), 3).unwrap_err(), SplitError::TooManySplits);
}

#[test]
fn no_partitions_is_an_error() {
    assert_eq!(create_input_splits(&parts(0), 3).unwrap_err(), SplitError::NoPartitions);
}

#[test]
fn memory_edge_only_when_colocated_and_forward() {
    let up = TaskId::new(0, 1, 2);
    let down = TaskId::new(1, 1, 2);
    assert_eq!(classify_edge(up, 7, down, 7, Partitioner::Forward), ExecutionEdge::Memory);
    assert_eq!(classify_edge(up, 7, down, 8, Partitioner::Forward), ExecutionEdge::Network);
    assert_eq!(classify_edge(up, 7, down, 7, Partitioner::HashByKey), ExecutionEdge::Network);
    let other = TaskId::new(1, 0, 2);
    assert_eq!(classify_edge(up, 7, other, 7, Partitioner::Forward), ExecutionEdge::Network);
}

#[test]
fn forward_and_hash_connections() {
    let up = expand_tasks(&vec![2]);
    let down: Vec<TaskId> = (0..2).map(|t| TaskId::new(1, t, 2)).collect();
    let m = connect_operators(&up, &vec![0, 1], &down, &vec![0, 0], Partitioner::Forward);
    assert_eq!(m[0], vec![Some(ExecutionEdge::Memory), None]);
    assert_eq!(m[1], vec![None, Some(ExecutionEdge::Network)]);
    let m = connect_operators(&up, &vec![0, 1], &down, &vec![0, 0], Partitioner::HashByKey);
    assert_eq!(m[0], vec![Some(ExecutionEdge::Network), Some(ExecutionEdge::Network)]);
    assert_eq!(m[1], vec![Some(ExecutionEdge::Network), Some(ExecutionEdge::Network)]);
}
