use vstd::prelude::*;
use crate::channel::{ChannelReceiver, TryRecvError};
use crate::element::Record;

verus! {

/// The action line of one document in a bulk request: the index and type
/// it is written to.
#[derive(Debug)]
pub struct Index {
    index: Option<String>,
    es_type: Option<String>,
}

impl Index {
    pub closed spec fn index_view(&self) -> Option<Seq<char>> {
        match self.index {
            Some(s) => Some(s@),
            None => None,
        }
    }

    pub closed spec fn type_view(&self) -> Option<Seq<char>> {
        match self.es_type {
            Some(s) => Some(s@),
            None => None,
        }
    }

    pub fn new() -> (r: Index)
        ensures
            r.index_view() is None,
            r.type_view() is None,
    {
        Index { index: None, es_type: None }
    }

    pub fn set_index(&mut self, index_value: String)
        ensures
            final(self).index_view() == Some(index_value@),
            final(self).type_view() == old(self).type_view(),
    {
        self.index = Some(index_value);
    }

    pub fn set_type(&mut self, type_value: String)
        ensures
            final(self).type_view() == Some(type_value@),
            final(self).index_view() == old(self).index_view(),
    {
        self.es_type = Some(type_value);
    }

    /// The fields of the action line, named as the bulk API names them,
    /// index first.
    pub fn fields(&self) -> (r: Vec<(String, String)>)
        ensures
            r@.len() == (if self.index_view() is Some { 1int } else { 0int }) + (if self.type_view() is Some {
                1int
            } else {
                0int
            }),
            self.index_view() matches Some(v) ==> r@[0].0@ == "_index"@ && r@[0].1@ == v,
            self.type_view() matches Some(v) ==> r@.last().0@ == "_type"@ && r@.last().1@ == v,
    {
        let mut out: Vec<(String, String)> = Vec::new();
        match &self.index {
            Some(v) => out.push(("_index".to_owned(), v.clone())),
            None => {},
        }
        match &self.es_type {
            Some(v) => out.push(("_type".to_owned(), v.clone())),
            None => {},
        }
        out
    }
}

/// How one bulk write went.
#[derive(Clone, Copy, Debug, PartialEq, Eq, Structural)]
pub enum BatchOutcome {
    /// The batch held this many bulk lines, and they were written.
    Written(usize),
    /// The request or the response failed.
    Failed,
}

pub const IDLE_DELAY_MS: u64 = 1000;

pub const RETRY_DELAY_MS: u64 = 100;

/// How long a writer waits before its next batch: a second after an empty
/// batch, a tenth of a second after a failure, not at all otherwise.
pub fn next_delay_ms(outcome: BatchOutcome) -> (r: u64)
    ensures
        outcome == BatchOutcome::Written(0) ==> r == IDLE_DELAY_MS,
        outcome == BatchOutcome::Failed ==> r == RETRY_DELAY_MS,
        (outcome matches BatchOutcome::Written(n) && n > 0) ==> r == 0,
{
    match outcome {
        BatchOutcome::Written(0) => IDLE_DELAY_MS,
        BatchOutcome::Written(_) => 0,
        BatchOutcome::Failed => RETRY_DELAY_MS,
    }
}

/// Why a bulk response counts as a failure.
#[derive(Clone, Copy, Debug, PartialEq, Eq, Structural)]
pub enum BulkError {
    /// The response has no boolean `errors` field.
    MissingErrorsField,
    /// The response reports errors for some documents.
    DocumentErrors,
}

/// Judges a bulk response by its `errors` field.
pub fn bulk_result(errors: Option<bool>) -> (r: Result<(), BulkError>)
    ensures
        errors is None ==> r == Err::<(), BulkError>(BulkError::MissingErrorsField),
        errors == Some(true) ==> r == Err::<(), BulkError>(BulkError::DocumentErrors),
        errors == Some(false) ==> r is Ok,
{
    match errors {
        None => Err(BulkError::MissingErrorsField),
        Some(true) => Err(BulkError::DocumentErrors),
        Some(false) => Ok(()),
    }
}

/// Takes up to `batch_size` records that wait in the sink's channel,
/// stopping at the first poll that finds none; says why it stopped early.
pub fn take_batch(rx: &mut ChannelReceiver<Record>, batch_size: usize) -> (r: (Vec<Record>, Option<TryRecvError>))
    ensures
        r.0@.len() <= batch_size,
        r.0@.len() < batch_size <==> r.1 is Some,
        final(rx).name_view() == old(rx).name_view(),
        old(rx).drained_view() + batch_size <= u64::MAX ==> final(rx).drained_view() == old(
            rx,
        ).drained_view() + r.0@.len(),
{
    let mut out: Vec<Record> = Vec::new();
    let mut i: usize = 0;
    while i < batch_size
        invariant
            i <= batch_size,
            out@.len() == i,
            rx.name_view() == old(rx).name_view(),
            old(rx).drained_view() + batch_size <= u64::MAX ==> rx.drained_view() == old(rx).drained_view() + i,
        decreases batch_size - i,
    {
        match rx.try_recv() {
            Ok(record) => out.push(record),
            Err(e) => {
                return (out, Some(e));
            },
        }
        i = i + 1;
    }
    (out, None)
}

/// The number of lines a bulk request for `records` documents holds: an
/// action line and a body line for each.
pub fn bulk_line_count(records: usize) -> (r: usize)
    requires
        records <= usize::MAX / 2,
    ensures
        r == 2 * records,
{
    2 * records
}

} // verus!
