use vstd::prelude::*;

verus! {

/// The raw offset that tells a message-bus consumer to start at the end of
/// a partition (`Offset::End` of the consumer library).
pub const OFFSET_END: i64 = -1;

/// An offset within one partition.
#[derive(Clone, Copy, Debug, PartialEq, Eq, Structural)]
pub struct PartitionOffset {
    pub partition: i32,
    pub offset: i64,
}

/// The range a source task consumes of its partition: from `begin_offset`,
/// up to `end_offset` if there is one.
#[derive(Debug)]
pub struct ConsumerRange {
    pub topic: String,
    pub partition: i32,
    pub begin_offset: i64,
    pub end_offset: Option<i64>,
}

/// The range of `partition` of `topic` between two looked-up offsets; with
/// no begin offset the consumer starts at the end of the partition.
pub fn consumer_range(
    topic: String,
    partition: i32,
    begin: Option<PartitionOffset>,
    end: Option<PartitionOffset>,
) -> (r: ConsumerRange)
    ensures
        r.topic@ == topic@,
        r.partition == partition,
        r.begin_offset == match begin {
            Some(p) => p.offset,
            None => OFFSET_END,
        },
        r.end_offset == match end {
            Some(p) => Some(p.offset),
            None => None::<i64>,
        },
{
    let begin_offset = match begin {
        Some(p) => p.offset,
        None => OFFSET_END,
    };
    let end_offset = match end {
        Some(p) => Some(p.offset),
        None => None,
    };
    ConsumerRange { topic, partition, begin_offset, end_offset }
}

/// The configured offset of `partition` in a list indexed by partition.
pub fn direct_offset(offsets: &Vec<PartitionOffset>, partition: i32) -> (r: Option<PartitionOffset>)
    ensures
        0 <= partition < offsets@.len() ==> r == Some(offsets@[partition as int]),
        !(0 <= partition < offsets@.len()) ==> r is None,
{
    if partition >= 0 && (partition as usize) < offsets.len() {
        Some(offsets[partition as usize])
    } else {
        None
    }
}

/// Configured offsets per topic: for each topic, the offsets indexed by
/// partition.
#[derive(Debug)]
pub struct TopicOffsets {
    pub topic: String,
    pub offsets: Vec<PartitionOffset>,
}

/// The offsets configured for `topic`: those of its last entry.
pub open spec fn offsets_of(table: Seq<TopicOffsets>, topic: Seq<char>) -> Option<Seq<PartitionOffset>>
    decreases table.len(),
{
    if table.len() == 0 {
        None
    } else if table.last().topic@ == topic {
        Some(table.last().offsets@)
    } else {
        offsets_of(table.drop_last(), topic)
    }
}

/// The offset configured for `partition` of `topic`, if any.
pub open spec fn configured_offset(table: Seq<TopicOffsets>, topic: Seq<char>, partition: i32) -> Option<
    PartitionOffset,
> {
    match offsets_of(table, topic) {
        Some(o) => if 0 <= partition < o.len() {
            Some(o[partition as int])
        } else {
            None
        },
        None => None,
    }
}

/// Looks up the configured offset of `partition` of `topic`.
pub fn lookup_offset(table: &Vec<TopicOffsets>, topic: &String, partition: i32) -> (r: Option<
    PartitionOffset,
>)
    ensures
        r == configured_offset(table@, topic@, partition),
{
    let mut i: usize = table.len();
    proof {
        assert(table@.subrange(0, i as int) =~= table@);
    }
    while i > 0
        invariant
            i <= table@.len(),
            offsets_of(table@, topic@) == offsets_of(table@.subrange(0, i as int), topic@),
        decreases i,
    {
        proof {
            assert(table@.subrange(0, i as int).drop_last() =~= table@.subrange(0, i - 1));
        }
        if table[i - 1].topic == *topic {
            return direct_offset(&table[i - 1].offsets, partition);
        }
        i = i - 1;
    }
    None
}

/// Where a source starts and stops reading.
#[derive(Debug)]
pub enum OffsetRange {
    /// Resume from the offset in the task's checkpoint state.
    Checkpointed,
    /// Offsets given per topic and partition.
    Direct { begin_offset: Vec<TopicOffsets>, end_offset: Option<Vec<TopicOffsets>> },
    /// Points in time given per topic; the brokers turn them into offsets.
    Timestamp { begin_timestamp: Vec<TopicTimestamp>, end_timestamp: Option<Vec<TopicTimestamp>> },
}

/// A point in time configured for one topic.
#[derive(Debug)]
pub struct TopicTimestamp {
    pub topic: String,
    pub timestamp: u64,
}

/// The time configured for `topic`: that of its last entry.
pub open spec fn timestamp_of(table: Seq<TopicTimestamp>, topic: Seq<char>) -> Option<u64>
    decreases table.len(),
{
    if table.len() == 0 {
        None
    } else if table.last().topic@ == topic {
        Some(table.last().timestamp)
    } else {
        timestamp_of(table.drop_last(), topic)
    }
}

/// Looks up the time configured for `topic`.
pub fn lookup_timestamp(table: &Vec<TopicTimestamp>, topic: &String) -> (r: Option<u64>)
    ensures
        r == timestamp_of(table@, topic@),
{
    let mut i: usize = table.len();
    proof {
        assert(table@.subrange(0, i as int) =~= table@);
    }
    while i > 0
        invariant
            i <= table@.len(),
            timestamp_of(table@, topic@) == timestamp_of(table@.subrange(0, i as int), topic@),
        decreases i,
    {
        proof {
            assert(table@.subrange(0, i as int).drop_last() =~= table@.subrange(0, i - 1));
        }
        if table[i - 1].topic == *topic {
            return Some(table[i - 1].timestamp);
        }
        i = i - 1;
    }
    None
}

/// The begin and end times a time-based range gives `topic`; `None` for
/// the other ranges.
pub fn topic_times(range: &OffsetRange, topic: &String) -> (r: Option<(Option<u64>, Option<u64>)>)
    ensures
        match range {
            OffsetRange::Timestamp { begin_timestamp, end_timestamp } => r == Some((
                timestamp_of(begin_timestamp@, topic@),
                match end_timestamp {
                    Some(e) => timestamp_of(e@, topic@),
                    None => None::<u64>,
                },
            )),
            _ => r is None,
        },
{
    match range {
        OffsetRange::Timestamp { begin_timestamp, end_timestamp } => {
            let begin = lookup_timestamp(begin_timestamp, topic);
            let end = match end_timestamp {
                Some(e) => lookup_timestamp(e, topic),
                None => None,
            };
            Some((begin, end))
        },
        _ => None,
    }
}

/// The range a task reads of `partition` of `topic`: from its checkpointed
/// offset when resuming, else between the configured offsets. A time-based
/// range needs the brokers: see `topic_times` and `consumer_range`.
pub fn consumer_range_for(
    range: &OffsetRange,
    topic: String,
    partition: i32,
    state_offset: Option<i64>,
) -> (r: ConsumerRange)
    requires
        !(range is Timestamp),
    ensures
        r.topic@ == topic@,
        r.partition == partition,
        match range {
            OffsetRange::Checkpointed => r.begin_offset == match state_offset {
                Some(o) => o,
                None => OFFSET_END,
            } && r.end_offset is None,
            OffsetRange::Direct { begin_offset, end_offset } => {
                &&& r.begin_offset == match configured_offset(begin_offset@, topic@, partition) {
                    Some(p) => p.offset,
                    None => OFFSET_END,
                }
                &&& r.end_offset == match end_offset {
                    Some(e) => match configured_offset(e@, topic@, partition) {
                        Some(p) => Some(p.offset),
                        None => None::<i64>,
                    },
                    None => None::<i64>,
                }
            },
            OffsetRange::Timestamp { .. } => true,
        },
{
    let (begin, end) = match range {
        OffsetRange::Checkpointed => {
            let begin = match state_offset {
                Some(offset) => Some(PartitionOffset { partition, offset }),
                None => None,
            };
            (begin, None)
        },
        OffsetRange::Direct { begin_offset, end_offset } => {
            let begin = lookup_offset(begin_offset, &topic, partition);
            let end = match end_offset {
                Some(e) => lookup_offset(e, &topic, partition),
                None => None,
            };
            (begin, end)
        },
        OffsetRange::Timestamp { .. } => (None, None),
    };
    consumer_range(topic, partition, begin, end)
}

} // verus!
