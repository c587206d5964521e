use vstd::prelude::*;
use vstd::arithmetic::div_mod::lemma_fundamental_div_mod_converse;

verus! {

/// One partition of one topic of a message bus, as the source's metadata
/// lists it.
#[derive(Debug)]
pub struct TopicPartition {
    pub topic: String,
    pub partition: i32,
}

impl TopicPartition {
    pub fn new(topic: String, partition: i32) -> (r: TopicPartition)
        ensures
            r.topic@ == topic@,
            r.partition == partition,
    {
        TopicPartition { topic, partition }
    }
}

/// A unit of source work handed to exactly one task.
///
/// Replicas of a split share its number and its topic partition; only the
/// first copy opens a connection of its own.
#[derive(Debug)]
pub struct InputSplit {
    pub split_number: u16,
    pub topic: String,
    pub partition: i32,
    pub create_connection: bool,
}

pub struct SplitModel {
    pub split_number: int,
    pub topic: Seq<char>,
    pub partition: i32,
    pub create_connection: bool,
}

impl View for InputSplit {
    type V = SplitModel;

    open spec fn view(&self) -> SplitModel {
        SplitModel {
            split_number: self.split_number as int,
            topic: self.topic@,
            partition: self.partition,
            create_connection: self.create_connection,
        }
    }
}

impl InputSplit {
    pub fn duplicate(&self) -> (r: InputSplit)
        ensures
            r@ == self@,
    {
        InputSplit {
            split_number: self.split_number,
            topic: self.topic.clone(),
            partition: self.partition,
            create_connection: self.create_connection,
        }
    }
}

/// Why the splits of a source cannot be enumerated.
#[derive(Clone, Copy, Debug, PartialEq, Eq, Structural)]
pub enum SplitError {
    /// The source lists no partition at all.
    NoPartitions,
    /// The source lists more partitions than the operator has tasks.
    TooManySplits,
}

/// The number of rounds of splits needed so that every one of `min` tasks
/// gets a split: `ceil(min / n)`.
pub open spec fn split_rounds(n: int, min: int) -> int {
    (min + n - 1) / n
}

/// The split at position `j` of the enumeration over `parts`: round `j / n`
/// of the partition `j % n`, connecting only in the first round.
pub open spec fn split_at(parts: Seq<TopicPartition>, j: int) -> SplitModel {
    let n = parts.len() as int;
    SplitModel {
        split_number: j % n,
        topic: parts[j % n].topic@,
        partition: parts[j % n].partition,
        create_connection: j < n,
    }
}

/// Enumerates the input splits of a source over the partitions `parts`, for
/// an operator that runs `min_num_splits` tasks.
///
/// Each partition becomes one split, numbered by its position. More
/// partitions than tasks is an error. Fewer are replicated round by round,
/// with the connection flag off, until there are at least as many splits as
/// tasks.
pub fn create_input_splits(parts: &Vec<TopicPartition>, min_num_splits: u16) -> (r: Result<
    Vec<InputSplit>,
    SplitError,
>)
    ensures
        r is Ok <==> 0 < parts@.len() <= min_num_splits,
        r == Err::<Vec<InputSplit>, SplitError>(SplitError::NoPartitions) <==> parts@.len() == 0,
        r == Err::<Vec<InputSplit>, SplitError>(SplitError::TooManySplits) <==> (0 < parts@.len()
            && parts@.len() > min_num_splits),
        r is Ok ==> ({
            let v = r->Ok_0@;
            let n = parts@.len() as int;
            &&& v.len() == n * split_rounds(n, min_num_splits as int)
            &&& forall|j: int| 0 <= j < v.len() ==> #[trigger] v[j]@ == split_at(parts@, j)
        }),
{
    let n = parts.len();
    if n == 0 {
        return Err(SplitError::NoPartitions);
    }
    if n > min_num_splits as usize {
        return Err(SplitError::TooManySplits);
    }
    let rounds: usize = (min_num_splits as usize + n - 1) / n;
    proof {
        assert(rounds * n <= min_num_splits + n - 1) by (nonlinear_arith)
            requires rounds == (min_num_splits + n - 1) / (n as int), n > 0;
    }
    let mut out: Vec<InputSplit> = Vec::new();
    let mut round: usize = 0;
    while round < rounds
        invariant
            n == parts@.len(),
            0 < n <= min_num_splits,
            rounds == split_rounds(n as int, min_num_splits as int),
            rounds * n <= min_num_splits + n - 1,
            round <= rounds,
            out@.len() == round * n,
            forall|j: int| 0 <= j < out@.len() ==> #[trigger] out@[j]@ == split_at(parts@, j),
        decreases rounds - round,
    {
        proof {
            assert((round + 1) * n <= rounds * n) by (nonlinear_arith)
                requires round < rounds, n > 0;
            assert((round + 1) * n == round * n + n) by (nonlinear_arith);
        }
        let mut i: usize = 0;
        while i < n
            invariant
                n == parts@.len(),
                0 < n <= min_num_splits,
                round < rounds,
                (round + 1) * n <= min_num_splits + n - 1,
                (round + 1) * n == round * n + n,
                i <= n,
                out@.len() == round * n + i,
                forall|j: int| 0 <= j < out@.len() ==> #[trigger] out@[j]@ == split_at(parts@, j),
            decreases n - i,
        {
            let p = &parts[i];
            let split = InputSplit {
                split_number: i as u16,
                topic: p.topic.clone(),
                partition: p.partition,
                create_connection: round == 0,
            };
            proof {
                let j = round * n + i;
                lemma_fundamental_div_mod_converse(j as int, n as int, round as int, i as int);
                assert(round == 0 <==> j < n) by (nonlinear_arith)
                    requires j == round * n + i, i < n, n > 0;
            }
            out.push(split);
            i = i + 1;
        }
        round = round + 1;
    }
    Ok(out)
}

} // verus!
