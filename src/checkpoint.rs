use vstd::prelude::*;
use crate::element::TaskId;

verus! {

/// One task's snapshot at one checkpoint id.
#[derive(Debug)]
pub struct Checkpoint {
    pub task_id: TaskId,
    pub checkpoint_id: u64,
    pub handle: Vec<u8>,
    /// The highest globally committed id known when the snapshot was taken.
    pub completed_checkpoint_id: Option<u64>,
}

pub struct CheckpointModel {
    pub task_id: TaskId,
    pub checkpoint_id: u64,
    pub handle: Seq<u8>,
    pub completed_checkpoint_id: Option<u64>,
}

impl View for Checkpoint {
    type V = CheckpointModel;

    open spec fn view(&self) -> CheckpointModel {
        CheckpointModel {
            task_id: self.task_id,
            checkpoint_id: self.checkpoint_id,
            handle: self.handle@,
            completed_checkpoint_id: self.completed_checkpoint_id,
        }
    }
}

pub open spec fn checkpoint_models(s: Seq<Checkpoint>) -> Seq<CheckpointModel> {
    s.map_values(|c: Checkpoint| c@)
}

impl Checkpoint {
    pub fn duplicate(&self) -> (r: Checkpoint)
        ensures
            r@ == self@,
    {
        Checkpoint {
            task_id: self.task_id,
            checkpoint_id: self.checkpoint_id,
            handle: self.handle.clone(),
            completed_checkpoint_id: self.completed_checkpoint_id,
        }
    }
}

pub fn duplicate_all(s: &Vec<Checkpoint>) -> (r: Vec<Checkpoint>)
    ensures
        checkpoint_models(r@) == checkpoint_models(s@),
{
    let mut out: Vec<Checkpoint> = Vec::new();
    let mut i: usize = 0;
    while i < s.len()
        invariant
            i <= s@.len(),
            out@.len() == i,
            forall|j: int| 0 <= j < i ==> #[trigger] out@[j]@ == s@[j]@,
        decreases s@.len() - i,
    {
        out.push(s[i].duplicate());
        i = i + 1;
    }
    proof {
        assert(checkpoint_models(out@) =~= checkpoint_models(s@));
    }
    out
}

/// The handle that task `t` snapshotted, among the snapshots of one
/// checkpoint.
pub open spec fn handle_of(s: Seq<CheckpointModel>, t: TaskId) -> Option<Seq<u8>>
    decreases s.len(),
{
    if s.len() == 0 {
        None
    } else if s.last().task_id == t {
        Some(s.last().handle)
    } else {
        handle_of(s.drop_last(), t)
    }
}

/// The handle a recovering task is initialized with: its own snapshot in
/// the loaded checkpoint, if it took one.
pub fn handle_for_task(loaded: &Vec<Checkpoint>, task: TaskId) -> (r: Option<Vec<u8>>)
    ensures
        match handle_of(checkpoint_models(loaded@), task) {
            Some(h) => r matches Some(v) && v@ == h,
            None => r is None,
        },
{
    let mut i: usize = loaded.len();
    proof {
        assert(checkpoint_models(loaded@).subrange(0, i as int) =~= checkpoint_models(loaded@));
    }
    while i > 0
        invariant
            i <= loaded@.len(),
            handle_of(checkpoint_models(loaded@), task) == handle_of(
                checkpoint_models(loaded@).subrange(0, i as int),
                task,
            ),
        decreases i,
    {
        proof {
            let m = checkpoint_models(loaded@);
            assert(m.subrange(0, i as int).drop_last() =~= m.subrange(0, i - 1));
        }
        if loaded[i - 1].task_id == task {
            return Some(loaded[i - 1].handle.clone());
        }
        i = i - 1;
    }
    None
}

/// What the coordinator makes of one task's acknowledgement.
#[derive(Debug)]
pub enum AckOutcome {
    /// The id is not in flight, or the task is not part of the job.
    Unknown,
    /// The acknowledgement is recorded; other tasks have not acknowledged yet.
    Pending,
    /// Every task has acknowledged: the snapshots of all tasks, in task order.
    Completed(Vec<Checkpoint>),
}

/// Acknowledgements collected for one checkpoint id in flight.
pub struct PendingCheckpoint {
    pub checkpoint_id: u64,
    pub acks: Vec<Option<Checkpoint>>,
}

/// Tracks checkpoint ids from their barrier to their global completion.
///
/// Ids are handed out in increasing order. An id is complete exactly when
/// every task of the job has acknowledged it; only then are its snapshots
/// surfaced, all at once.
pub struct CheckpointCoordinator {
    tasks: Vec<TaskId>,
    next_id: u64,
    pending: Vec<PendingCheckpoint>,
    latest_completed: Option<u64>,
}

pub open spec fn tasks_unique(s: Seq<TaskId>) -> bool {
    forall|i: int, j: int| 0 <= i < s.len() && 0 <= j < s.len() && s[i] == s[j] ==> i == j
}

pub open spec fn option_models(s: Seq<Option<Checkpoint>>) -> Seq<Option<CheckpointModel>> {
    s.map_values(
        |o: Option<Checkpoint>|
            match o {
                Some(c) => Some(c@),
                None => None,
            },
    )
}

pub open spec fn all_some(s: Seq<Option<CheckpointModel>>) -> bool {
    forall|i: int| 0 <= i < s.len() ==> #[trigger] s[i] is Some
}

pub open spec fn unwrap_all(s: Seq<Option<CheckpointModel>>) -> Seq<CheckpointModel> {
    s.map_values(|o: Option<CheckpointModel>| o->Some_0)
}

/// The later of a known completed id and a newly completed one.
pub open spec fn later_completed(old_latest: Option<u64>, id: u64) -> Option<u64> {
    match old_latest {
        Some(l) if l > id => Some(l),
        _ => Some(id),
    }
}

pub open spec fn all_acked(s: Seq<Option<Checkpoint>>) -> bool {
    forall|i: int| 0 <= i < s.len() ==> #[trigger] s[i] is Some
}

impl CheckpointCoordinator {
    pub closed spec fn task_list(&self) -> Seq<TaskId> {
        self.tasks@
    }

    /// The id the next barrier will carry.
    pub closed spec fn next_checkpoint_id(&self) -> u64 {
        self.next_id
    }

    pub closed spec fn latest(&self) -> Option<u64> {
        self.latest_completed
    }

    /// The ids in flight.
    pub closed spec fn in_flight(&self) -> Seq<u64> {
        self.pending@.map_values(|p: PendingCheckpoint| p.checkpoint_id)
    }

    pub closed spec fn wf(&self) -> bool {
        &&& self.tasks@.len() > 0
        &&& forall|i: int| 0 <= i < self.pending@.len() ==> (#[trigger] self.pending@[i]).acks@.len()
            == self.tasks@.len()
        &&& forall|i: int| 0 <= i < self.pending@.len() ==> (#[trigger] self.pending@[i]).checkpoint_id
            < self.next_id
        &&& forall|i: int| 0 <= i < self.pending@.len() ==> !all_acked(
            (#[trigger] self.pending@[i]).acks@,
        )
        &&& self.latest_completed matches Some(l) ==> l < self.next_id
        &&& forall|i: int, j: int|
            0 <= i < j < self.pending@.len() ==> (#[trigger] self.pending@[i]).checkpoint_id
                < (#[trigger] self.pending@[j]).checkpoint_id
        &&& tasks_unique(self.tasks@)
    }

    /// The acknowledgements of the `k`-th id in flight, in task order.
    pub closed spec fn slots(&self, k: int) -> Seq<Option<CheckpointModel>> {
        option_models(self.pending@[k].acks@)
    }

    /// A coordinator for a job made of `tasks`, whose first barrier carries
    /// `first_id`.
    pub fn new(tasks: Vec<TaskId>, first_id: u64) -> (r: CheckpointCoordinator)
        requires
            tasks@.len() > 0,
            tasks_unique(tasks@),
        ensures
            r.wf(),
            r.task_list() == tasks@,
            r.next_checkpoint_id() == first_id,
            r.latest() is None,
            r.in_flight().len() == 0,
    {
        let r = CheckpointCoordinator {
            tasks,
            next_id: first_id,
            pending: Vec::new(),
            latest_completed: None,
        };
        proof {
            assert(r.in_flight() =~= Seq::<u64>::empty());
        }
        r
    }

    /// The most recent globally completed id, carried in later barriers.
    pub fn latest_completed(&self) -> (r: Option<u64>)
        ensures
            r == self.latest(),
    {
        self.latest_completed
    }

    /// Starts a new checkpoint: returns the id to inject at every source, or
    /// `None` once ids are exhausted.
    pub fn trigger(&mut self) -> (r: Option<u64>)
        requires
            old(self).wf(),
        ensures
            final(self).wf(),
            final(self).task_list() == old(self).task_list(),
            final(self).latest() == old(self).latest(),
            old(self).next_checkpoint_id() == u64::MAX ==> r is None && *final(self) == *old(self),
            old(self).next_checkpoint_id() < u64::MAX ==> {
                &&& r == Some(old(self).next_checkpoint_id())
                &&& final(self).next_checkpoint_id() == old(self).next_checkpoint_id() + 1
                &&& final(self).in_flight() == old(self).in_flight().push(
                    old(self).next_checkpoint_id(),
                )
            },
    {
        if self.next_id == u64::MAX {
            return None;
        }
        let id = self.next_id;
        let mut acks: Vec<Option<Checkpoint>> = Vec::new();
        let mut i: usize = 0;
        while i < self.tasks.len()
            invariant
                i <= self.tasks@.len(),
                acks@.len() == i,
                forall|j: int| 0 <= j < i ==> #[trigger] acks@[j] is None,
            decreases self.tasks@.len() - i,
        {
            acks.push(None);
            i = i + 1;
        }
        proof {
            assert(self.tasks@.len() > 0 ==> !all_acked(acks@)) by {
                if self.tasks@.len() > 0 {
                    assert(acks@[0] is None);
                }
            }
        }
        self.pending.push(PendingCheckpoint { checkpoint_id: id, acks });
        self.next_id = id + 1;
        proof {
            assert(self.in_flight() =~= old(self).in_flight().push(id));
        }
        Some(id)
    }

    fn task_position(&self, t: TaskId) -> (r: Option<usize>)
        ensures
            r matches Some(p) ==> p < self.tasks@.len() && self.tasks@[p as int] == t,
            r is None ==> !self.tasks@.contains(t),
    {
        let mut i: usize = 0;
        while i < self.tasks.len()
            invariant
                i <= self.tasks@.len(),
                forall|j: int| 0 <= j < i ==> #[trigger] self.tasks@[j] != t,
            decreases self.tasks@.len() - i,
        {
            if self.tasks[i] == t {
                return Some(i);
            }
            i = i + 1;
        }
        None
    }

    fn pending_position(&self, id: u64) -> (r: Option<usize>)
        ensures
            r matches Some(k) ==> k < self.pending@.len() && self.in_flight()[k as int] == id,
            r is None ==> !self.in_flight().contains(id),
    {
        let mut i: usize = 0;
        while i < self.pending.len()
            invariant
                i <= self.pending@.len(),
                forall|j: int| 0 <= j < i ==> #[trigger] self.in_flight()[j] != id,
            decreases self.pending@.len() - i,
        {
            if self.pending[i].checkpoint_id == id {
                return Some(i);
            }
            i = i + 1;
        }
        None
    }

    /// Records the acknowledgement of a task that has snapshotted its state
    /// at `ck.checkpoint_id`.
    pub fn ack(&mut self, ck: Checkpoint) -> (r: AckOutcome)
        requires
            old(self).wf(),
        ensures
            final(self).wf(),
            final(self).task_list() == old(self).task_list(),
            final(self).next_checkpoint_id() == old(self).next_checkpoint_id(),
            r is Unknown <==> !old(self).task_list().contains(ck.task_id) || !old(
                self,
            ).in_flight().contains(ck.checkpoint_id),
            r is Unknown ==> *final(self) == *old(self),
            forall|k: int, p: int|
                #![trigger old(self).in_flight()[k], old(self).task_list()[p]]
                0 <= k < old(self).in_flight().len() && old(self).in_flight()[k] == ck.checkpoint_id
                    && 0 <= p < old(self).task_list().len() && old(self).task_list()[p]
                    == ck.task_id ==> {
                    let slots = old(self).slots(k).update(p, Some(ck@));
                    if all_some(slots) {
                        &&& r is Completed
                        &&& checkpoint_models(r->Completed_0@) == unwrap_all(slots)
                        &&& final(self).in_flight() == old(self).in_flight().remove(k)
                        &&& final(self).latest() == later_completed(
                            old(self).latest(),
                            ck.checkpoint_id,
                        )
                    } else {
                        &&& r is Pending
                        &&& final(self).in_flight() == old(self).in_flight()
                        &&& final(self).slots(k) == slots
                        &&& final(self).latest() == old(self).latest()
                    }
                },
    {
        let p = match self.task_position(ck.task_id) {
            Some(p) => p,
            None => {
                return AckOutcome::Unknown;
            },
        };
        let k = match self.pending_position(ck.checkpoint_id) {
            Some(k) => k,
            None => {
                return AckOutcome::Unknown;
            },
        };
        let id = ck.checkpoint_id;
        let ghost ckm = ck@;
        let ghost old_pending = self.pending@;
        let mut entry = self.pending.remove(k);
        entry.acks.set(p, Some(ck));
        proof {
            assert(option_models(entry.acks@) =~= option_models(old_pending[k as int].acks@).update(
                p as int,
                Some(ckm),
            ));
        }
        let mut complete = true;
        let mut i: usize = 0;
        while i < entry.acks.len()
            invariant
                i <= entry.acks@.len(),
                complete <==> forall|j: int| 0 <= j < i ==> #[trigger] entry.acks@[j] is Some,
            decreases entry.acks@.len() - i,
        {
            if entry.acks[i].is_none() {
                complete = false;
            }
            i = i + 1;
        }
        proof {
            let m = option_models(entry.acks@);
            if complete {
                assert forall|j: int| 0 <= j < m.len() implies #[trigger] m[j] is Some by {
                    assert(entry.acks@[j] is Some);
                }
            } else {
                let j = choose|j: int| 0 <= j < entry.acks@.len() && !(#[trigger] entry.acks@[j] is Some);
                assert(!(m[j] is Some));
            }
        }
        if complete {
            let mut out: Vec<Checkpoint> = Vec::new();
            let mut i: usize = 0;
            while i < entry.acks.len()
                invariant
                    i <= entry.acks@.len(),
                    forall|j: int| 0 <= j < entry.acks@.len() ==> #[trigger] entry.acks@[j] is Some,
                    out@.len() == i,
                    forall|j: int| 0 <= j < i ==> #[trigger] out@[j]@ == entry.acks@[j]->Some_0@,
                decreases entry.acks@.len() - i,
            {
                match &entry.acks[i] {
                    Some(c) => out.push(c.duplicate()),
                    None => {},
                }
                i = i + 1;
            }
            let ghost old_latest = self.latest_completed;
            match self.latest_completed {
                Some(l) if l > id => {},
                _ => {
                    self.latest_completed = Some(id);
                },
            }
            proof {
                assert(checkpoint_models(out@) =~= unwrap_all(option_models(entry.acks@)));
                assert(self.in_flight() =~= old(self).in_flight().remove(k as int));
                assert forall|a: int, b: int|
                    0 <= a < b < self.pending@.len() implies (#[trigger] self.pending@[a]).checkpoint_id
                    < (#[trigger] self.pending@[b]).checkpoint_id by {
                    let a0 = if a < k { a } else { a + 1 };
                    let b0 = if b < k { b } else { b + 1 };
                    assert(self.pending@[a] == old_pending[a0]);
                    assert(self.pending@[b] == old_pending[b0]);
                }
                assert forall|k2: int, p2: int|
                    0 <= k2 < old(self).in_flight().len() && old(self).in_flight()[k2] == id && 0 <= p2
                        < old(self).task_list().len() && old(self).task_list()[p2]
                        == ckm.task_id implies k2 == k && p2 == p by {
                    if k2 != k as int {
                        if k2 < k {
                            assert(old_pending[k2].checkpoint_id < old_pending[k as int].checkpoint_id);
                        } else {
                            assert(old_pending[k as int].checkpoint_id < old_pending[k2].checkpoint_id);
                        }
                    }
                }
            }
            AckOutcome::Completed(out)
        } else {
            self.pending.insert(k, entry);
            proof {
                assert(self.pending@ =~= old_pending.update(k as int, self.pending@[k as int]));
                assert(self.in_flight() =~= old(self).in_flight());
                assert forall|k2: int, p2: int|
                    0 <= k2 < old(self).in_flight().len() && old(self).in_flight()[k2] == id && 0 <= p2
                        < old(self).task_list().len() && old(self).task_list()[p2]
                        == ckm.task_id implies k2 == k && p2 == p by {
                    if k2 != k as int {
                        if k2 < k {
                            assert(old_pending[k2].checkpoint_id < old_pending[k as int].checkpoint_id);
                        } else {
                            assert(old_pending[k as int].checkpoint_id < old_pending[k2].checkpoint_id);
                        }
                    }
                }
            }
            AckOutcome::Pending
        }
    }

    /// Abandons a checkpoint id whose snapshot or save failed; later ids
    /// proceed.
    pub fn abandon(&mut self, checkpoint_id: u64) -> (r: bool)
        requires
            old(self).wf(),
        ensures
            final(self).wf(),
            final(self).task_list() == old(self).task_list(),
            final(self).next_checkpoint_id() == old(self).next_checkpoint_id(),
            final(self).latest() == old(self).latest(),
            r == old(self).in_flight().contains(checkpoint_id),
            !r ==> *final(self) == *old(self),
            forall|k: int|
                0 <= k < old(self).in_flight().len() && old(self).in_flight()[k] == checkpoint_id
                    ==> final(self).in_flight() == #[trigger] old(self).in_flight().remove(k),
    {
        match self.pending_position(checkpoint_id) {
            None => false,
            Some(k) => {
                let ghost old_pending = self.pending@;
                let _dropped = self.pending.remove(k);
                proof {
                    assert(self.in_flight() =~= old(self).in_flight().remove(k as int));
                    assert forall|a: int, b: int|
                        0 <= a < b < self.pending@.len() implies (#[trigger] self.pending@[a]).checkpoint_id
                        < (#[trigger] self.pending@[b]).checkpoint_id by {
                        let a0 = if a < k { a } else { a + 1 };
                        let b0 = if b < k { b } else { b + 1 };
                        assert(self.pending@[a] == old_pending[a0]);
                        assert(self.pending@[b] == old_pending[b0]);
                    }
                    assert forall|k2: int|
                        0 <= k2 < old(self).in_flight().len() && old(self).in_flight()[k2]
                            == checkpoint_id implies k2 == k by {
                        if k2 < k {
                            assert(old_pending[k2].checkpoint_id < old_pending[k as int].checkpoint_id);
                        } else if k2 > k {
                            assert(old_pending[k as int].checkpoint_id < old_pending[k2].checkpoint_id);
                        }
                    }
                }
                true
            },
        }
    }
}

} // verus!
