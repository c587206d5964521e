use vstd::prelude::*;
use crate::element::{FnSchema, Record, RecordModel, TaskId};

verus! {

pub open spec fn record_models(s: Seq<Record>) -> Seq<RecordModel> {
    s.map_values(|r: Record| r@)
}

/// The records of `data` that task `t` of `n` emits: all of them for a
/// single task, else those whose position is `t` modulo `n`, in order.
pub open spec fn task_records(data: Seq<RecordModel>, n: u16, t: u16) -> Seq<RecordModel>
    decreases data.len(),
{
    if n == 1 {
        data
    } else if data.len() == 0 {
        Seq::empty()
    } else {
        let rest = task_records(data.drop_last(), n, t);
        if (data.len() - 1) % (n as int) == t as int {
            rest.push(data.last())
        } else {
            rest
        }
    }
}

/// A source that emits the records of a fixed list, spread over its tasks.
pub struct IteratorInputFormat {
    parallelism: u16,
    schema: FnSchema,
    data: Option<Vec<Record>>,
    task_id: Option<TaskId>,
}

impl IteratorInputFormat {
    pub closed spec fn parallelism_view(&self) -> u16 {
        self.parallelism
    }

    /// The records not yet handed out, if any are left to hand out.
    pub closed spec fn pending(&self) -> Option<Seq<RecordModel>> {
        match self.data {
            Some(d) => Some(record_models(d@)),
            None => None,
        }
    }

    /// The task this instance was opened for.
    pub closed spec fn opened_for(&self) -> Option<TaskId> {
        self.task_id
    }

    /// The schema of the records this source emits.
    pub closed spec fn schema_view(&self) -> Option<Seq<crate::element::DataType>> {
        self.schema@
    }

    pub fn new(data: Vec<Record>, schema: FnSchema, parallelism: u16) -> (r: IteratorInputFormat)
        ensures
            r.parallelism_view() == parallelism,
            r.schema_view() == schema@,
            r.pending() == Some(record_models(data@)),
            r.opened_for() is None,
    {
        IteratorInputFormat { parallelism, schema, data: Some(data), task_id: None }
    }

    /// The schema of the emitted records, whatever the input schema.
    pub fn schema(&self, _input_schema: FnSchema) -> (r: FnSchema)
        ensures
            r@ == self.schema_view(),
    {
        self.schema.duplicate()
    }

    pub fn name(&self) -> (r: String)
        ensures
            r@ == "IteratorInputFormat"@,
    {
        "IteratorInputFormat".to_owned()
    }

    pub fn parallelism(&self) -> (r: u16)
        ensures
            r == self.parallelism_view(),
    {
        self.parallelism
    }

    /// Opens the source as the task `task_id`.
    pub fn open(&mut self, task_id: TaskId)
        ensures
            final(self).opened_for() == Some(task_id),
            final(self).pending() == old(self).pending(),
            final(self).parallelism_view() == old(self).parallelism_view(),
            final(self).schema_view() == old(self).schema_view(),
    {
        self.task_id = Some(task_id);
    }

    /// The records of the opened task, handed out once.
    pub fn record_iter(&mut self) -> (r: Vec<Record>)
        requires
            old(self).opened_for() matches Some(t) && t.wf(),
            old(self).pending() is Some,
        ensures
            record_models(r@) == task_records(
                old(self).pending()->Some_0,
                old(self).opened_for()->Some_0.num_tasks,
                old(self).opened_for()->Some_0.task_number,
            ),
            final(self).pending() is None,
            final(self).opened_for() == old(self).opened_for(),
            final(self).schema_view() == old(self).schema_view(),
            final(self).parallelism_view() == old(self).parallelism_view(),
    {
        let task = match self.task_id {
            Some(t) => t,
            None => TaskId { job_id: 0, task_number: 0, num_tasks: 1 },
        };
        let data = match self.data.take() {
            Some(d) => d,
            None => Vec::new(),
        };
        if task.num_tasks == 1 {
            return data;
        }
        let mut out: Vec<Record> = Vec::new();
        let mut i: usize = 0;
        while i < data.len()
            invariant
                i <= data@.len(),
                task.num_tasks > 1,
                record_models(out@) == task_records(
                    record_models(data@.subrange(0, i as int)),
                    task.num_tasks,
                    task.task_number,
                ),
            decreases data@.len() - i,
        {
            proof {
                assert(record_models(data@.subrange(0, i + 1)).drop_last() =~= record_models(
                    data@.subrange(0, i as int),
                ));
            }
            if i % (task.num_tasks as usize) == task.task_number as usize {
                let ghost before = out@;
                out.push(data[i].duplicate());
                proof {
                    assert(record_models(out@) =~= record_models(before).push(data@[i as int]@));
                }
            }
            i = i + 1;
        }
        proof {
            assert(data@.subrange(0, data@.len() as int) =~= data@);
        }
        out
    }
}

/// A source over `data` with `parallelism` tasks; task `t` of `n` emits the
/// records at the positions equal to `t` modulo `n`.
pub fn vec_source(data: Vec<Record>, schema: FnSchema, parallelism: u16) -> (r: IteratorInputFormat)
    ensures
        r.parallelism_view() == parallelism,
        r.schema_view() == schema@,
        r.pending() == Some(record_models(data@)),
        r.opened_for() is None,
{
    IteratorInputFormat::new(data, schema, parallelism)
}

} // verus!
