use vstd::prelude::*;
use crate::element::TaskId;
use crate::splits::InputSplit;

verus! {

/// How an edge between two tasks is carried.
#[derive(Clone, Copy, Debug, PartialEq, Eq, Structural)]
pub enum ExecutionEdge {
    /// Inside one worker process, with no serialization.
    Memory,
    /// Across worker processes, framed on a connection.
    Network,
}

/// How an upstream task's output is routed to the downstream tasks.
#[derive(Clone, Copy, Debug, PartialEq, Eq, Structural)]
pub enum Partitioner {
    Forward,
    HashByKey,
    Rebalance,
    Broadcast,
}

/// The sum of the operators' parallelisms.
pub open spec fn total_parallelism(ps: Seq<u16>) -> int
    decreases ps.len(),
{
    if ps.len() == 0 {
        0
    } else {
        total_parallelism(ps.drop_last()) + ps.last() as int
    }
}

/// The tasks of operator `op`, which runs `p` of them, numbered `0..p`.
pub open spec fn operator_tasks(op: int, p: u16) -> Seq<TaskId> {
    Seq::new(p as nat, |t: int| TaskId { job_id: op as u32, task_number: t as u16, num_tasks: p })
}

/// The task instances of a graph whose operator `k` runs `ps[k]` tasks,
/// operator by operator.
pub open spec fn expanded_tasks(ps: Seq<u16>) -> Seq<TaskId>
    decreases ps.len(),
{
    if ps.len() == 0 {
        Seq::empty()
    } else {
        expanded_tasks(ps.drop_last()) + operator_tasks(ps.len() - 1, ps.last())
    }
}

/// A graph build makes as many tasks as the operators' parallelisms add up to.
pub proof fn lemma_task_count(ps: Seq<u16>)
    ensures
        expanded_tasks(ps).len() == total_parallelism(ps),
    decreases ps.len(),
{
    if ps.len() > 0 {
        lemma_task_count(ps.drop_last());
    }
}

/// Every task that a graph build makes has its number below its count.
pub proof fn lemma_expanded_tasks_wf(ps: Seq<u16>)
    ensures
        forall|i: int| 0 <= i < expanded_tasks(ps).len() ==> (#[trigger] expanded_tasks(ps)[i]).wf(),
    decreases ps.len(),
{
    if ps.len() > 0 {
        lemma_expanded_tasks_wf(ps.drop_last());
        let a = expanded_tasks(ps.drop_last());
        let b = operator_tasks(ps.len() - 1, ps.last());
        assert forall|i: int| 0 <= i < expanded_tasks(ps).len() implies (#[trigger] expanded_tasks(
            ps,
        )[i]).wf() by {
            if i >= a.len() {
                assert(expanded_tasks(ps)[i] == b[i - a.len()]);
            } else {
                assert(expanded_tasks(ps)[i] == a[i]);
            }
        }
    }
}

/// Expands a logical graph whose operator `k` has parallelism
/// `parallelisms[k]` into its task instances, operator by operator.
pub fn expand_tasks(parallelisms: &Vec<u16>) -> (r: Vec<TaskId>)
    requires
        parallelisms@.len() <= u32::MAX,
    ensures
        r@ == expanded_tasks(parallelisms@),
        r@.len() == total_parallelism(parallelisms@),
{
    let mut out: Vec<TaskId> = Vec::new();
    let mut k: usize = 0;
    while k < parallelisms.len()
        invariant
            parallelisms@.len() <= u32::MAX,
            k <= parallelisms@.len(),
            out@ == expanded_tasks(parallelisms@.subrange(0, k as int)),
        decreases parallelisms@.len() - k,
    {
        let p = parallelisms[k];
        let ghost before = out@;
        let mut t: u16 = 0;
        while t < p
            invariant
                k < parallelisms@.len() <= u32::MAX,
                p == parallelisms@[k as int],
                t <= p,
                out@ == before + operator_tasks(k as int, p).subrange(0, t as int),
            decreases p - t,
        {
            out.push(TaskId { job_id: k as u32, task_number: t, num_tasks: p });
            t = t + 1;
            proof {
                assert(operator_tasks(k as int, p).subrange(0, t as int) =~= operator_tasks(
                    k as int,
                    p,
                ).subrange(0, t - 1) .push(TaskId { job_id: k as u32, task_number: (t - 1) as u16, num_tasks: p }));
            }
        }
        proof {
            let next = parallelisms@.subrange(0, k + 1);
            assert(next.drop_last() =~= parallelisms@.subrange(0, k as int));
            assert(operator_tasks(k as int, p).subrange(0, p as int) =~= operator_tasks(k as int, p));
        }
        k = k + 1;
    }
    proof {
        assert(parallelisms@.subrange(0, parallelisms@.len() as int) =~= parallelisms@);
        lemma_task_count(parallelisms@);
    }
    out
}

/// Whether routing from `up` to `down` keeps records inside one position of
/// the operator chain: only a forward partitioner between equal numbers does.
pub open spec fn preserves_locality(p: Partitioner, up: TaskId, down: TaskId) -> bool {
    p == Partitioner::Forward && up.task_number == down.task_number
}

/// Classifies the edge from a task placed on worker `up_worker` to a task
/// placed on `down_worker`: in memory exactly when both share the worker and
/// the partitioner keeps that pair local.
pub fn classify_edge(
    up: TaskId,
    up_worker: u32,
    down: TaskId,
    down_worker: u32,
    partitioner: Partitioner,
) -> (r: ExecutionEdge)
    ensures
        r == ExecutionEdge::Memory <==> (up_worker == down_worker && preserves_locality(
            partitioner,
            up,
            down,
        )),
{
    let local = match partitioner {
        Partitioner::Forward => up.task_number == down.task_number,
        _ => false,
    };
    if up_worker == down_worker && local {
        ExecutionEdge::Memory
    } else {
        ExecutionEdge::Network
    }
}

/// The split that task `task_number` of a source receives: the split at
/// that position modulo the number of splits.
pub fn assign_input_split(splits: &Vec<InputSplit>, task_number: u16) -> (r: InputSplit)
    requires
        splits@.len() > 0,
    ensures
        r@ == splits@[task_number as int % splits@.len() as int]@,
{
    splits[task_number as usize % splits.len()].duplicate()
}

/// Whether records of upstream task `up` can reach downstream task `down`
/// of an operator with `n` tasks under the partitioner: a forward edge
/// reaches the task of its own number modulo `n`, the others reach all.
pub open spec fn connected(p: Partitioner, up: TaskId, down: TaskId, n: u16) -> bool {
    p == Partitioner::Forward ==> down.task_number == up.task_number % n
}

/// The edge from `up` on worker `uw` to `down` on worker `dw`, if records
/// can travel it.
pub open spec fn edge_between(p: Partitioner, up: TaskId, uw: u32, down: TaskId, dw: u32, n: u16) -> Option<
    ExecutionEdge,
> {
    if connected(p, up, down, n) {
        Some(
            if uw == dw && preserves_locality(p, up, down) {
                ExecutionEdge::Memory
            } else {
                ExecutionEdge::Network
            },
        )
    } else {
        None
    }
}

/// Connects the tasks of two adjacent operators, placed on the given
/// workers: entry `[i][j]` is the edge from upstream task `i` to downstream
/// task `j`, or `None` where no record can travel.
pub fn connect_operators(
    up: &Vec<TaskId>,
    up_workers: &Vec<u32>,
    down: &Vec<TaskId>,
    down_workers: &Vec<u32>,
    partitioner: Partitioner,
) -> (r: Vec<Vec<Option<ExecutionEdge>>>)
    requires
        up_workers@.len() == up@.len(),
        down_workers@.len() == down@.len(),
        0 < down@.len() <= u16::MAX,
    ensures
        r@.len() == up@.len(),
        forall|i: int| 0 <= i < up@.len() ==> (#[trigger] r@[i])@.len() == down@.len(),
        forall|i: int, j: int|
            0 <= i < up@.len() && 0 <= j < down@.len() ==> #[trigger] r@[i]@[j] == edge_between(
                partitioner,
                up@[i],
                up_workers@[i],
                down@[j],
                down_workers@[j],
                down@.len() as u16,
            ),
{
    let n = down.len() as u16;
    let mut out: Vec<Vec<Option<ExecutionEdge>>> = Vec::new();
    let mut i: usize = 0;
    while i < up.len()
        invariant
            up_workers@.len() == up@.len(),
            down_workers@.len() == down@.len(),
            n == down@.len(),
            n > 0,
            i <= up@.len(),
            out@.len() == i,
            forall|a: int| 0 <= a < i ==> (#[trigger] out@[a])@.len() == down@.len(),
            forall|a: int, b: int|
                0 <= a < i && 0 <= b < down@.len() ==> #[trigger] out@[a]@[b] == edge_between(
                    partitioner,
                    up@[a],
                    up_workers@[a],
                    down@[b],
                    down_workers@[b],
                    n,
                ),
        decreases up@.len() - i,
    {
        let u = up[i];
        let uw = up_workers[i];
        let mut row: Vec<Option<ExecutionEdge>> = Vec::new();
        let mut j: usize = 0;
        while j < down.len()
            invariant
                down_workers@.len() == down@.len(),
                n == down@.len(),
                n > 0,
                j <= down@.len(),
                row@.len() == j,
                forall|b: int|
                    0 <= b < j ==> #[trigger] row@[b] == edge_between(
                        partitioner,
                        u,
                        uw,
                        down@[b],
                        down_workers@[b],
                        n,
                    ),
            decreases down@.len() - j,
        {
            let d = down[j];
            let reaches = match partitioner {
                Partitioner::Forward => d.task_number == u.task_number % n,
                _ => true,
            };
            if reaches {
                row.push(Some(classify_edge(u, uw, d, down_workers[j], partitioner)));
            } else {
                row.push(None);
            }
            j = j + 1;
        }
        out.push(row);
        i = i + 1;
    }
    out
}

} // verus!
