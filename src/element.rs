use vstd::prelude::*;

verus! {

/// One parallel instance of a logical operator.
#[derive(Clone, Copy, Debug, PartialEq, Eq, Structural)]
pub struct TaskId {
    pub job_id: u32,
    pub task_number: u16,
    pub num_tasks: u16,
}

impl TaskId {
    pub open spec fn wf(self) -> bool {
        self.task_number < self.num_tasks
    }

    pub fn new(job_id: u32, task_number: u16, num_tasks: u16) -> (r: TaskId)
        ensures
            r == (TaskId { job_id, task_number, num_tasks }),
    {
        TaskId { job_id, task_number, num_tasks }
    }
}

/// The unit of user data: an opaque body, an event timestamp and an optional
/// routing key.
#[derive(Debug)]
pub struct Record {
    pub timestamp: i64,
    pub key: Option<Vec<u8>>,
    pub body: Vec<u8>,
}

/// The mathematical value of a record.
pub struct RecordModel {
    pub timestamp: i64,
    pub key: Option<Seq<u8>>,
    pub body: Seq<u8>,
}

impl View for Record {
    type V = RecordModel;

    open spec fn view(&self) -> RecordModel {
        RecordModel {
            timestamp: self.timestamp,
            key: match self.key {
                Some(k) => Some(k@),
                None => None,
            },
            body: self.body@,
        }
    }
}

impl Record {
    pub fn new(timestamp: i64, key: Option<Vec<u8>>, body: Vec<u8>) -> (r: Record)
        ensures
            r.timestamp == timestamp,
            r.key == key,
            r.body == body,
    {
        Record { timestamp, key, body }
    }

    /// A copy with the same contents.
    pub fn duplicate(&self) -> (r: Record)
        ensures
            r@ == self@,
    {
        let key = match &self.key {
            Some(k) => Some(k.clone()),
            None => None,
        };
        Record { timestamp: self.timestamp, key, body: self.body.clone() }
    }
}

/// Whether a stream is currently producing data.
#[derive(Clone, Copy, Debug, PartialEq, Eq, Structural)]
pub enum StreamStatus {
    Idle,
    Active,
}

/// What flows on channels between tasks.
#[derive(Debug)]
pub enum Element {
    Record(Record),
    Watermark(i64),
    Barrier(u64),
    StreamStatus(StreamStatus),
}

/// The mathematical value of an element.
pub enum ElementModel {
    Record(RecordModel),
    Watermark(i64),
    Barrier(u64),
    StreamStatus(StreamStatus),
}

impl View for Element {
    type V = ElementModel;

    open spec fn view(&self) -> ElementModel {
        match self {
            Element::Record(r) => ElementModel::Record(r@),
            Element::Watermark(t) => ElementModel::Watermark(*t),
            Element::Barrier(c) => ElementModel::Barrier(*c),
            Element::StreamStatus(s) => ElementModel::StreamStatus(*s),
        }
    }
}

impl Element {
    /// A copy with the same contents.
    pub fn duplicate(&self) -> (r: Element)
        ensures
            r@ == self@,
    {
        match self {
            Element::Record(rec) => Element::Record(rec.duplicate()),
            Element::Watermark(t) => Element::Watermark(*t),
            Element::Barrier(c) => Element::Barrier(*c),
            Element::StreamStatus(s) => Element::StreamStatus(*s),
        }
    }

    pub fn is_barrier(&self) -> (r: bool)
        ensures
            r == (self is Barrier),
    {
        match self {
            Element::Barrier(_) => true,
            _ => false,
        }
    }
}

/// The type of one field of a record's schema.
#[derive(Clone, Copy, Debug, PartialEq, Eq, Structural)]
pub enum DataType {
    Bool,
    Int8,
    Int16,
    Int32,
    Int64,
    UInt8,
    UInt16,
    UInt32,
    UInt64,
    String,
    Bytes,
}

/// The layout of the records a function takes or gives.
#[derive(Debug)]
pub enum FnSchema {
    Empty,
    Fields(Vec<DataType>),
}

impl View for FnSchema {
    type V = Option<Seq<DataType>>;

    open spec fn view(&self) -> Option<Seq<DataType>> {
        match self {
            FnSchema::Empty => None,
            FnSchema::Fields(f) => Some(f@),
        }
    }
}

impl FnSchema {
    /// A copy with the same fields.
    pub fn duplicate(&self) -> (r: FnSchema)
        ensures
            r@ == self@,
    {
        match self {
            FnSchema::Empty => FnSchema::Empty,
            FnSchema::Fields(f) => FnSchema::Fields(f.clone()),
        }
    }
}

} // verus!
