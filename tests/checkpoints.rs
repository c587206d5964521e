use rlink::checkpoint::{handle_for_task, AckOutcome, Checkpoint, CheckpointCoordinator};
use rlink::element::{Record, TaskId};
use rlink::source::vec_source;
use rlink::element::FnSchema;
use rlink::storage::{CheckpointBackend, CheckpointStorage, MemoryCheckpointStorage, StorageError, TCheckpointStorage};

fn ck(task: TaskId, id: u64, handle: Vec<u8>) -> Checkpoint {
    Checkpoint { task_id: task, checkpoint_id: id, handle, completed_checkpoint_id: None }
}

#[test]
fn checkpoint_completes_only_when_every_task_acks() {
    let t0 = TaskId::new(0, 0, 2);
    let t1 = TaskId::new(0, 1, 2);
    let mut co = CheckpointCoordinator::new(vec![t0, t1], 7);
    assert_eq!(co.trigger(), Some(7));
    assert_eq!(co.trigger(), Some(8));
    assert!(matches!(co.ack(ck(t1, 7, vec![1])), AckOutcome::Pending));
    assert_eq!(co.latest_completed(), None);
    assert!(matches!(co.ack(ck(TaskId::new(9, 0, 1), 7, vec![])), AckOutcome::Unknown));
    assert!(matches!(co.ack(ck(t0, 99, vec![])), AckOutcome::Unknown));
    match co.ack(ck(t0, 7, vec![0])) {
        AckOutcome::Completed(all) => {
            assert_eq!(all.len(), 2);
            assert_eq!(all[0].task_id, t0);
            assert_eq!(all[0].handle, vec![0]);
            assert_eq!(all[1].task_id, t1);
            assert_eq!(all[1].handle, vec![1]);
        }
        other => panic!("not complete: {:?}", other),
    }
    assert_eq!(co.latest_completed(), Some(7));
    assert!(matches!(co.ack(ck(t0, 7, vec![0])), AckOutcome::Unknown));
}

#[test]
fn recovery_resumes_after_committed_offset() {
    let task = TaskId::new(0, 0, 1);
    let data: Vec<Record> = (0..10).map(|i| Record::new(i, None, vec![i as u8])).collect();
    let mut co = CheckpointCoordinator::new(vec![task], 7);
    let mut storage = CheckpointStorage::new(&CheckpointBackend::Memory);
    let id = co.trigger().unwrap();
    // the source has emitted records 0..8 when the barrier passes it
    let handle = 8u64.to_be_bytes().to_vec();
    let all = match co.ack(ck(task, id, handle)) {
        AckOutcome::Completed(all) => all,
        other => panic!("not complete: {:?}", other),
    };
    storage.save("app", "run-1", id, all, 60_000).unwrap();
    // the worker dies and restarts
    let loaded = storage.load("app", "run-1").unwrap();
    assert_eq!(loaded.len(), 1);
    assert_eq!(loaded[0].checkpoint_id, 7);
    let handle = handle_for_task(&loaded, task).unwrap();
    let offset = u64::from_be_bytes(handle[..8].try_into().unwrap()) as usize;
    let mut source = vec_source(data, FnSchema::Empty, 1);
    source.open(task);
    let replay: Vec<i64> = source.record_iter().into_iter().skip(offset).map(|r| r.timestamp).collect();
    assert_eq!(replay, vec![8, 9]);
}

#[test]
fn memory_storage_loads_latest_and_by_id() {
    let t = TaskId::new(0, 0, 1);
    let mut s = MemoryCheckpointStorage::new();
    assert_eq!(s.load("app", "a").unwrap_err(), StorageError::NotFound);
    s.save("app", "a", 3, vec![ck(t, 3, vec![3])], 0).unwrap();
    s.save("app", "a", 5, vec![ck(t, 5, vec![5])], 0).unwrap();
    s.save("app", "b", 9, vec![ck(t, 9, vec![9])], 0).unwrap();
    assert_eq!(s.load("app", "a").unwrap()[0].handle, vec![5]);
    assert_eq!(s.load("app", "b").unwrap()[0].handle, vec![9]);
    assert_eq!(s.load_by_checkpoint_id("app", "a", 3).unwrap()[0].handle, vec![3]);
    assert_eq!(s.load_by_checkpoint_id("app", "a", 9).unwrap_err(), StorageError::NotFound);
    assert_eq!(s.load("other", "a").unwrap_err(), StorageError::NotFound);
}

#[test]
fn relational_backend_is_unavailable_in_process() {
    let backend = CheckpointBackend::Relational { endpoint: "db:3306".to_string(), table: "ck".to_string() };
    let mut s = CheckpointStorage::new(&backend);
    assert!(matches!(s, CheckpointStorage::RelationalCheckpointStorage(_)));
    assert_eq!(s.load("app", "a").unwrap_err(), StorageError::BackendUnavailable);
    assert_eq!(s.save("app", "a", 1, vec![], 0).unwrap_err(), StorageError::BackendUnavailable);
}

#[test]
fn checkpoint_ids_exhaust_at_max() {
    let mut co = CheckpointCoordinator::new(vec![TaskId::new(0, 0, 1)], u64::MAX - 1);
    assert_eq!(co.trigger(), Some(u64::MAX - 1));
    assert_eq!(co.trigger(), None);
}

#[test]
fn abandoned_checkpoint_never_completes() {
    let t0 = TaskId::new(0, 0, 1);
    let mut co = CheckpointCoordinator::new(vec![t0], 1);
    let first = co.trigger().unwrap();
    let second = co.trigger().unwrap();
    assert!(co.abandon(first));
    assert!(!co.abandon(first));
    assert!(matches!(co.ack(ck(t0, first, vec![])), AckOutcome::Unknown));
    assert!(matches!(co.ack(ck(t0, second, vec![2])), AckOutcome::Completed(_)));
    assert_eq!(co.latest_completed(), Some(2));
}

#[test]
fn each_task_gets_its_own_handle() {
    let t0 = TaskId::new(0, 0, 2);
    let t1 = TaskId::new(0, 1, 2);
    let loaded = vec![ck(t0, 4, vec![10]), ck(t1, 4, vec![11])];
    assert_eq!(handle_for_task(&loaded, t1), Some(vec![11]));
    assert_eq!(handle_for_task(&loaded, t0), Some(vec![10]));
    assert_eq!(handle_for_task(&loaded, TaskId::new(1, 0, 1)), None);
}

#[test]
fn storage_enum_delegates_to_memory_store() {
    let t = TaskId::new(0, 0, 1);
    let mut s = CheckpointStorage::new(&CheckpointBackend::Memory);
    assert!(s.save("app", "a", 2, vec![ck(t, 2, vec![2])], 0).is_ok());
    assert_eq!(s.load("app", "a").unwrap()[0].handle, vec![2]);
    assert_eq!(s.load_by_checkpoint_id("app", "a", 2).unwrap()[0].checkpoint_id, 2);
    assert_eq!(s.load_by_checkpoint_id("app", "a", 3).unwrap_err(), StorageError::NotFound);
}
