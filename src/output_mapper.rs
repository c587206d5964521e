use vstd::prelude::*;
use vstd::string::{StrSliceExecFns, StringSliceAdditionalSpecFns};
use crate::element::{Record, RecordModel};

verus! {

/// Turns each incoming entity into one message for the bus: keyed, with
/// the entity as its body and the time of mapping as its timestamp.
#[derive(Debug)]
pub struct OutputMapperFunction {}

impl OutputMapperFunction {
    pub fn new() -> (r: OutputMapperFunction) {
        OutputMapperFunction {}
    }

    /// The records that one entity, already serialized to `body`, maps to
    /// at time `timestamp` with message key `key`.
    pub fn flat_map(&mut self, timestamp: i64, key: &str, body: &str) -> (r: Vec<Record>)
        ensures
            r@.len() == 1,
            r@[0]@ == (RecordModel {
                timestamp,
                key: Some(key.spec_bytes()),
                body: body.spec_bytes(),
            }),
    {
        let mut out: Vec<Record> = Vec::new();
        out.push(Record { timestamp, key: Some(key.as_bytes_vec()), body: body.as_bytes_vec() });
        out
    }
}

} // verus!
