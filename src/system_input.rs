use vstd::prelude::*;
use std::sync::Arc;
use std::sync::atomic::{AtomicBool, Ordering};
use crate::channel::{ChannelBaseOn, ChannelReceiver, MAX_CHANNEL_CAPACITY, TryRecvError, bump, select_ready};
use crate::pubsub::{MemoryPubSub, pairs_with};
use crate::align::{AlignError, BarrierAligner};
use crate::element::{Element, FnSchema, TaskId};
use crate::graph::ExecutionEdge;

verus! {

/// The coordinator's verdict on the job, shared by all task threads of a
/// worker.
pub struct CoordinatorStatus {
    terminated: Arc<AtomicBool>,
}

impl CoordinatorStatus {
    pub fn new() -> (r: CoordinatorStatus) {
        CoordinatorStatus { terminated: Arc::new(AtomicBool::new(false)) }
    }

    /// Whether the coordinator has reported global termination.
    pub fn is_terminated(&self) -> bool {
        self.terminated.load(Ordering::SeqCst)
    }

    pub fn terminate(&self) {
        self.terminated.store(true, Ordering::SeqCst)
    }

    /// Another handle on the same status.
    pub fn share(&self) -> (r: CoordinatorStatus) {
        CoordinatorStatus { terminated: Arc::clone(&self.terminated) }
    }
}

/// Parents reached through edges of one type.
pub open spec fn upstream_of(parents: Seq<(TaskId, ExecutionEdge)>, edge: ExecutionEdge) -> Seq<TaskId>
    decreases parents.len(),
{
    if parents.len() == 0 {
        Seq::empty()
    } else {
        let rest = upstream_of(parents.drop_last(), edge);
        if parents.last().1 == edge {
            rest.push(parents.last().0)
        } else {
            rest
        }
    }
}

/// Iterates the elements of one input channel.
pub struct ChannelIterator {
    receiver: ChannelReceiver<Element>,
}

impl ChannelIterator {
    pub fn new(receiver: ChannelReceiver<Element>) -> (r: ChannelIterator)
        ensures
            r.receiver_view() == receiver,
    {
        ChannelIterator { receiver }
    }

    pub closed spec fn receiver_view(&self) -> ChannelReceiver<Element> {
        self.receiver
    }

    /// The next element; `None` once the channel is disconnected and empty,
    /// or once the coordinator has terminated the job (the element received
    /// then is dropped).
    pub fn next(&mut self, status: &CoordinatorStatus) -> (r: Option<Element>)
        ensures
            final(self).receiver_view().name_view() == old(self).receiver_view().name_view(),
            r is Some ==> final(self).receiver_view().drained_view() == bump(
                old(self).receiver_view().drained_view(),
            ),
            old(self).receiver_view().drained_view() < u64::MAX && final(self).receiver_view().drained_view()
                == old(self).receiver_view().drained_view() ==> r is None,
    {
        let received = self.receiver.recv();
        let terminated = status.is_terminated();
        deliver(received, terminated)
    }
}

/// What a task's input passes on of a received element: nothing once the
/// job is terminated, else what was received.
pub fn deliver(received: Option<Element>, terminated: bool) -> (r: Option<Element>)
    ensures
        r == (if terminated {
            None
        } else {
            received
        }),
{
    if terminated {
        None
    } else {
        received
    }
}

/// What one poll of several input channels yields.
#[derive(Debug)]
pub enum InputPoll {
    /// An element taken from the channel at the given position.
    Element(usize, Element),
    /// Nothing was waiting; poll again.
    Idle,
    /// Every channel is disconnected, or the job is terminated.
    Finished,
}

/// The result of a poll: the element found, if any, unless the job is
/// terminated; with none found, the input is finished once every channel is
/// disconnected or the job is terminated, and idle otherwise.
pub fn decide_poll(found: Option<(usize, Element)>, all_gone: bool, terminated: bool) -> (r: InputPoll)
    ensures
        found matches Some((k, e)) ==> if terminated {
            r is Finished
        } else {
            r == InputPoll::Element(k, e)
        },
        found is None ==> if all_gone || terminated {
            r is Finished
        } else {
            r is Idle
        },
{
    match found {
        Some((k, e)) => if terminated {
            InputPoll::Finished
        } else {
            InputPoll::Element(k, e)
        },
        None => if all_gone || terminated {
            InputPoll::Finished
        } else {
            InputPoll::Idle
        },
    }
}

/// What a poll learned of one channel.
#[derive(Clone, Copy, Debug, PartialEq, Eq, Structural)]
pub enum Trial {
    /// The channel was seen disconnected before; it was not tried.
    Skipped,
    /// The poll stopped before reaching the channel.
    NotTried,
    /// The channel had no element waiting.
    Empty,
    /// The channel reported that every sender is gone and nothing is left.
    Disconnected,
    /// An element was taken from the channel.
    Taken,
}

/// What the outcome of a receive on channel `k` means for a poll: the
/// trial's record, and the element found, if any.
pub fn classify_receive(k: usize, res: Result<Element, TryRecvError>) -> (r: (Trial, Option<(usize, Element)>))
    ensures
        res matches Ok(e) ==> r == (Trial::Taken, Some((k, e))),
        res == Err::<Element, TryRecvError>(TryRecvError::Empty) ==> r == (Trial::Empty, None::<(usize, Element)>),
        res == Err::<Element, TryRecvError>(TryRecvError::Disconnected) ==> r == (
            Trial::Disconnected,
            None::<(usize, Element)>,
        ),
{
    match res {
        Ok(e) => (Trial::Taken, Some((k, e))),
        Err(TryRecvError::Empty) => (Trial::Empty, None),
        Err(TryRecvError::Disconnected) => (Trial::Disconnected, None),
    }
}

/// Iterates the elements of several input channels, serving them in turn so
/// that no channel with waiting elements is starved.
pub struct MultiChannelIterator {
    receivers: Vec<ChannelReceiver<Element>>,
    disconnected: Vec<bool>,
    cursor: usize,
}

/// The channel tried at step `j` of a poll of `n` channels that starts at
/// `cursor`.
pub open spec fn at_offset(cursor: int, j: int, n: int) -> int {
    if cursor + j < n {
        cursor + j
    } else {
        cursor + j - n
    }
}

/// The step at which a poll of `n` channels starting at `cursor` tries
/// channel `k`.
pub open spec fn offset_of(cursor: int, k: int, n: int) -> int {
    if k >= cursor {
        k - cursor
    } else {
        k + n - cursor
    }
}

/// The position after channel `k` among `n`, wrapping to the first.
pub open spec fn after(k: int, n: int) -> int {
    if k + 1 == n {
        0
    } else {
        k + 1
    }
}

impl MultiChannelIterator {
    pub closed spec fn wf(&self) -> bool {
        &&& self.disconnected@.len() == self.receivers@.len()
        &&& (self.cursor < self.receivers@.len() || self.cursor == 0)
    }

    /// The input channels, in the order polls rotate through them.
    pub closed spec fn channels(&self) -> Seq<ChannelReceiver<Element>> {
        self.receivers@
    }

    pub closed spec fn channel_count(&self) -> nat {
        self.receivers@.len()
    }

    /// The channel that the next poll tries first.
    pub closed spec fn next_channel(&self) -> int {
        self.cursor as int
    }

    /// Whether channel `i` has been seen disconnected; it is no longer tried.
    pub closed spec fn gone(&self, i: int) -> bool {
        self.disconnected@[i]
    }

    /// The elements taken so far from channel `i`.
    pub closed spec fn drained_from(&self, i: int) -> u64 {
        self.receivers@[i].drained_view()
    }

    pub open spec fn all_gone(&self) -> bool {
        forall|i: int| 0 <= i < self.channel_count() ==> #[trigger] self.gone(i)
    }

    /// What a poll guarantees, from state `a` to state `b`, with result `r`
    /// and what it learned of each channel in `t`.
    pub open spec fn polled(a: &Self, b: &Self, r: InputPoll, t: Seq<Trial>) -> bool {
        let n = a.channel_count() as int;
        let c = a.next_channel();
        &&& b.wf()
        &&& b.channel_count() == a.channel_count()
        &&& t.len() == n
        // exactly the channels seen disconnected before are skipped
        &&& forall|i: int| 0 <= i < n ==> (#[trigger] t[i] == Trial::Skipped <==> a.gone(i))
        // a channel is marked disconnected once it reports so
        &&& forall|i: int| 0 <= i < n ==> (#[trigger] b.gone(i) <==> a.gone(i) || t[i] == Trial::Disconnected)
        // only the channel an element was taken from is drained
        &&& forall|i: int|
            0 <= i < n ==> if #[trigger] t[i] == Trial::Taken {
                b.drained_from(i) == bump(a.drained_from(i)) && b.next_channel() == after(i, n)
            } else {
                b.drained_from(i) == a.drained_from(i)
            }
        &&& forall|i: int, k: int|
            0 <= i < n && 0 <= k < n && #[trigger] t[i] == Trial::Taken && #[trigger] t[k] == Trial::Taken
                ==> i == k
        &&& (forall|i: int| 0 <= i < n ==> #[trigger] t[i] != Trial::Taken) ==> b.next_channel() == c
        // a poll of channels all disconnected receives nothing
        &&& a.all_gone() ==> r is Finished && *b == *a
        // with nothing taken, an input whose channels are all disconnected
        // is finished
        &&& (forall|i: int| 0 <= i < n ==> #[trigger] t[i] != Trial::Taken) && b.all_gone() ==> r is Finished
        // channels are tried in turn from the cursor until one gives an
        // element; the ones after it are not tried
        &&& r matches InputPoll::Element(k, _) ==> {
            &&& 0 <= k < n
            &&& t[k as int] == Trial::Taken
            &&& forall|j: int|
                0 <= j < n ==> {
                    let i = #[trigger] at_offset(c, j, n);
                    &&& j < offset_of(c, k as int, n) ==> t[i] != Trial::NotTried && t[i] != Trial::Taken
                    &&& j > offset_of(c, k as int, n) ==> t[i] == Trial::Skipped || t[i] == Trial::NotTried
                }
        }
        // an idle poll tried every channel and found one empty and none
        // with an element
        &&& r is Idle ==> {
            &&& forall|i: int| 0 <= i < n ==> #[trigger] t[i] != Trial::NotTried && t[i] != Trial::Taken
            &&& exists|i: int| 0 <= i < n && #[trigger] t[i] == Trial::Empty
        }
    }

    /// What a call of `next` guarantees: one poll, or an idle poll and,
    /// after a wait, a second one.
    pub open spec fn advanced(a: &Self, b: &Self, r: InputPoll) -> bool {
        ||| exists|t: Seq<Trial>| #[trigger] Self::polled(a, b, r, t)
        ||| exists|m: Self, t1: Seq<Trial>, t2: Seq<Trial>|
            #[trigger] Self::polled(a, &m, InputPoll::Idle, t1) && #[trigger] Self::polled(&m, b, r, t2)
    }

    pub fn new(receivers: Vec<ChannelReceiver<Element>>) -> (r: MultiChannelIterator)
        ensures
            r.wf(),
            r.channels() == receivers@,
            r.next_channel() == 0,
            forall|i: int| 0 <= i < receivers@.len() ==> !#[trigger] r.gone(i),
    {
        let mut disconnected: Vec<bool> = Vec::new();
        let mut i: usize = 0;
        while i < receivers.len()
            invariant
                i <= receivers@.len(),
                disconnected@.len() == i,
                forall|j: int| 0 <= j < i ==> !#[trigger] disconnected@[j],
            decreases receivers@.len() - i,
        {
            disconnected.push(false);
            i = i + 1;
        }
        MultiChannelIterator { receivers, disconnected, cursor: 0 }
    }

    fn try_channel(&mut self, k: usize) -> (r: Result<Element, TryRecvError>)
        requires
            old(self).wf(),
            k < old(self).receivers@.len(),
        ensures
            final(self).wf(),
            final(self).cursor == old(self).cursor,
            final(self).disconnected == old(self).disconnected,
            final(self).receivers@.len() == old(self).receivers@.len(),
            forall|i: int|
                0 <= i < final(self).receivers@.len() && i != k ==> #[trigger] final(self).drained_from(i)
                    == old(self).drained_from(i),
            r is Ok ==> final(self).drained_from(k as int) == bump(old(self).drained_from(k as int)),
            r is Err ==> final(self).drained_from(k as int) == old(self).drained_from(k as int),
    {
        let mut rx = self.receivers.remove(k);
        let res = rx.try_recv();
        self.receivers.insert(k, rx);
        proof {
            assert forall|i: int|
                0 <= i < self.receivers@.len() && i != k implies #[trigger] self.drained_from(i)
                == old(self).drained_from(i) by {
                assert(self.receivers@[i] == old(self).receivers@[i]);
            }
        }
        res
    }

    /// Tries each channel not yet seen disconnected, in turn from the
    /// cursor, until one gives an element; returns the result and what was
    /// learned of each channel.
    pub fn poll(&mut self, status: &CoordinatorStatus) -> (r: (InputPoll, Vec<Trial>))
        requires
            old(self).wf(),
        ensures
            Self::polled(old(self), final(self), r.0, r.1@),
    {
        let n = self.receivers.len();
        let c = self.cursor;
        let mut trials: Vec<Trial> = Vec::new();
        let mut i: usize = 0;
        while i < n
            invariant
                n == self.disconnected@.len(),
                i <= n,
                trials@.len() == i,
                forall|a: int| 0 <= a < i ==> #[trigger] trials@[a] == if self.disconnected@[a] {
                    Trial::Skipped
                } else {
                    Trial::NotTried
                },
            decreases n - i,
        {
            if self.disconnected[i] {
                trials.push(Trial::Skipped);
            } else {
                trials.push(Trial::NotTried);
            }
            i = i + 1;
        }
        let mut found: Option<(usize, Element)> = None;
        let mut j: usize = 0;
        while j < n && found.is_none()
            invariant
                self.wf(),
                n == self.receivers@.len(),
                n == old(self).receivers@.len(),
                self.cursor == c,
                c == old(self).cursor,
                j <= n,
                trials@.len() == n,
                old(self).all_gone() ==> *self == *old(self) && found is None,
                forall|a: int| 0 <= a < n ==> (#[trigger] trials@[a] == Trial::Skipped <==> old(self).gone(a)),
                forall|a: int| 0 <= a < n ==> (#[trigger] self.gone(a) <==> old(self).gone(a) || trials@[a] == Trial::Disconnected),
                forall|a: int|
                    0 <= a < n ==> if #[trigger] trials@[a] == Trial::Taken {
                        self.drained_from(a) == bump(old(self).drained_from(a))
                    } else {
                        self.drained_from(a) == old(self).drained_from(a)
                    },
                found is None ==> forall|a: int| 0 <= a < n ==> #[trigger] trials@[a] != Trial::Taken,
                found matches Some((k, _)) ==> {
                    &&& k < n
                    &&& j > 0
                    &&& k == at_offset(c as int, j - 1, n as int)
                    &&& trials@[k as int] == Trial::Taken
                    &&& forall|a: int| 0 <= a < n && #[trigger] trials@[a] == Trial::Taken ==> a == k
                },
                forall|jj: int|
                    0 <= jj < n ==> {
                        let a = #[trigger] at_offset(c as int, jj, n as int);
                        &&& (jj < j && !(found is Some && jj == j - 1)) ==> trials@[a] != Trial::NotTried
                            && trials@[a] != Trial::Taken
                        &&& jj >= j ==> trials@[a] == Trial::Skipped || trials@[a] == Trial::NotTried
                    },
            decreases n - j,
        {
            let k = if j < n - c {
                c + j
            } else {
                j - (n - c)
            };
            proof {
                assert(k == at_offset(c as int, j as int, n as int));
                assert forall|jj: int| 0 <= jj < n && jj != j implies #[trigger] at_offset(c as int, jj, n as int) != k by {}
            }
            let ghost tr0 = trials@;
            if !self.disconnected[k] {
                proof {
                    assert(!self.gone(k as int));
                    assert(!old(self).gone(k as int));
                    assert(trials@[k as int] == Trial::NotTried) by {
                        assert(at_offset(c as int, j as int, n as int) == k);
                    }
                }
                let ghost before_trials = trials@;
                let ghost before = *self;
                let res = self.try_channel(k);
                let ghost resg = res;
                let ghost after_try = *self;
                let (trial, got) = classify_receive(k, res);
                proof {
                    match resg {
                        Ok(_) => {},
                        Err(TryRecvError::Empty) => {},
                        Err(TryRecvError::Disconnected) => {},
                    }
                    assert(trial != Trial::Skipped && trial != Trial::NotTried);
                    assert(trial == Trial::Taken <==> resg is Ok);
                    assert(got is Some <==> trial == Trial::Taken);
                }
                trials.set(k, trial);
                let is_gone = match trial {
                    Trial::Disconnected => true,
                    _ => false,
                };
                if is_gone {
                    self.disconnected.set(k, true);
                }
                proof {
                    assert(self.receivers == after_try.receivers);
                    assert forall|a: int| 0 <= a < n && a != k implies trials@[a] == before_trials[a]
                        && self.gone(a) == before.gone(a) && self.drained_from(a) == before.drained_from(a) by {
                        assert(self.drained_from(a) == after_try.drained_from(a));
                        assert(after_try.drained_from(a) == before.drained_from(a));
                    }
                    assert(self.gone(k as int) == (trial == Trial::Disconnected));
                }
                found = got;
            } else {
                proof {
                    assert(self.gone(k as int));
                    assert(trials@[k as int] == Trial::Skipped || trials@[k as int] == Trial::Disconnected);
                }
            }
            proof {
                assert forall|a: int| 0 <= a < n && a != k implies trials@[a] == tr0[a] by {}
                assert(trials@[k as int] != Trial::NotTried);
                assert(found is Some <==> trials@[k as int] == Trial::Taken);
                assert forall|jj: int| 0 <= jj < n implies {
                    let a = #[trigger] at_offset(c as int, jj, n as int);
                    &&& (jj < j + 1 && !(found is Some && jj == j)) ==> trials@[a] != Trial::NotTried
                        && trials@[a] != Trial::Taken
                    &&& jj >= j + 1 ==> trials@[a] == Trial::Skipped || trials@[a] == Trial::NotTried
                } by {
                    let a = at_offset(c as int, jj, n as int);
                    if jj != j {
                        assert(a != k);
                        assert(trials@[a] == tr0[a]);
                    }
                }
            }
            j = j + 1;
        }
        let mut all_gone = true;
        let mut i: usize = 0;
        while i < n
            invariant
                n == self.disconnected@.len(),
                n == self.receivers@.len(),
                i <= n,
                all_gone <==> forall|a: int| 0 <= a < i ==> #[trigger] self.disconnected@[a],
            decreases n - i,
        {
            if !self.disconnected[i] {
                all_gone = false;
            }
            i = i + 1;
        }
        proof {
            if all_gone {
                assert forall|a: int| 0 <= a < self.channel_count() implies #[trigger] self.gone(a) by {
                    assert(self.disconnected@[a]);
                }
            } else {
                let a = choose|a: int| 0 <= a < n && !#[trigger] self.disconnected@[a];
                assert(!self.gone(a));
            }
        }
        let ghost pre = *self;
        match &found {
            Some((k, _)) => {
                let k = *k;
                self.cursor = if k + 1 == n {
                    0
                } else {
                    k + 1
                };
            },
            None => {},
        }
        proof {
            assert forall|a: int| 0 <= a < n implies #[trigger] self.gone(a) == pre.gone(a)
                && self.drained_from(a) == pre.drained_from(a) by {}
            if found is Some {
                let k = found->Some_0.0;
                assert(offset_of(c as int, k as int, n as int) == j - 1);
            } else {
                assert(j == n);
                assert forall|a: int| 0 <= a < n implies #[trigger] trials@[a] != Trial::NotTried
                    && trials@[a] != Trial::Taken by {
                    let jj = offset_of(c as int, a, n as int);
                    assert(at_offset(c as int, jj, n as int) == a);
                }
            }
        }
        let terminated = if found.is_none() && all_gone {
            false
        } else {
            status.is_terminated()
        };
        (decide_poll(found, all_gone, terminated), trials)
    }

    /// Waits until one of the channels is ready when a first poll finds
    /// nothing, then polls them again.
    pub fn next(&mut self, status: &CoordinatorStatus) -> (r: InputPoll)
        requires
            old(self).wf(),
        ensures
            Self::advanced(old(self), final(self), r),
    {
        let (first, t1) = self.poll(status);
        match first {
            InputPoll::Idle => {
                let ghost mid = *self;
                proof {
                    let i = choose|i: int| 0 <= i < old(self).channel_count() && #[trigger] t1@[i] == Trial::Empty;
                    assert(self.receivers@.len() > 0);
                }
                let _ready = select_ready(&self.receivers);
                let (r, t2) = self.poll(status);
                proof {
                    assert(Self::polled(old(self), &mid, InputPoll::Idle, t1@));
                    assert(Self::polled(&mid, self, r, t2@));
                }
                r
            },
            _ => {
                proof {
                    assert(Self::polled(old(self), self, first, t1@));
                }
                first
            },
        }
    }
}

/// The capacity of a task's input channel when the configuration names
/// none.
pub const DEFAULT_CHANNEL_SIZE: usize = 50000;

/// Why a task's input cannot be opened.
#[derive(Clone, Copy, Debug, PartialEq, Eq, Structural)]
pub enum OpenError {
    /// The configured capacity of a bounded channel is above
    /// `MAX_CHANNEL_CAPACITY`.
    CapacityTooLarge,
}

/// The input side of a task whose upstream is other tasks: it reads from
/// the memory channel of co-located upstream tasks and the network channel
/// of the others.
pub struct SystemInputFormat {
    memory_receiver: Option<ChannelReceiver<Element>>,
    network_receiver: Option<ChannelReceiver<Element>>,
    task_id: TaskId,
    channel_size: usize,
    channel_base: ChannelBaseOn,
}

/// The iterator over a task's input channels.
pub enum ElementIterator {
    Single(ChannelIterator),
    Multiple(MultiChannelIterator),
}

/// The capacity and mode of the input channels, from the configuration or
/// its defaults.
pub open spec fn effective_settings(size: Option<usize>, base: Option<ChannelBaseOn>) -> (usize, ChannelBaseOn) {
    (
        match size {
            Some(n) => n,
            None => DEFAULT_CHANNEL_SIZE,
        },
        match base {
            Some(b) => b,
            None => ChannelBaseOn::Unbounded,
        },
    )
}

impl SystemInputFormat {
    pub closed spec fn task(&self) -> TaskId {
        self.task_id
    }

    pub closed spec fn memory_view(&self) -> Option<ChannelReceiver<Element>> {
        self.memory_receiver
    }

    pub closed spec fn network_view(&self) -> Option<ChannelReceiver<Element>> {
        self.network_receiver
    }

    /// The capacity and mode of the channels this input subscribes with.
    pub closed spec fn settings(&self) -> (usize, ChannelBaseOn) {
        (self.channel_size, self.channel_base)
    }

    pub open spec fn receiver_count(&self) -> nat {
        (if self.memory_view() is Some { 1nat } else { 0nat }) + (if self.network_view() is Some {
            1nat
        } else {
            0nat
        })
    }

    pub fn new() -> (r: SystemInputFormat)
        ensures
            r.task() == (TaskId { job_id: 0, task_number: 0, num_tasks: 0 }),
            r.memory_view() is None,
            r.network_view() is None,
            r.settings() == effective_settings(None, None),
    {
        SystemInputFormat {
            memory_receiver: None,
            network_receiver: None,
            task_id: TaskId { job_id: 0, task_number: 0, num_tasks: 0 },
            channel_size: DEFAULT_CHANNEL_SIZE,
            channel_base: ChannelBaseOn::Unbounded,
        }
    }

    /// Opens the input of `task_id`, whose upstream edges are `parents`,
    /// with the configured channel capacity and mode or their defaults.
    /// The co-located parents are subscribed to at once, through one memory
    /// channel; the parents across the network are returned, in order, for
    /// the caller to subscribe to (see `attach_network`).
    pub fn open(
        &mut self,
        task_id: TaskId,
        parents: &Vec<(TaskId, ExecutionEdge)>,
        wiring: &mut MemoryPubSub,
        channel_size: Option<usize>,
        channel_base: Option<ChannelBaseOn>,
    ) -> (r: Result<Vec<TaskId>, OpenError>)
        ensures
            ({
                let (size, base) = effective_settings(channel_size, channel_base);
                &&& r is Err <==> base == ChannelBaseOn::Bounded && size > MAX_CHANNEL_CAPACITY
                &&& r is Err ==> *final(self) == *old(self) && final(wiring).pairs() == old(wiring).pairs()
                &&& r is Ok ==> {
                    let mem = upstream_of(parents@, ExecutionEdge::Memory);
                    &&& r->Ok_0@ == upstream_of(parents@, ExecutionEdge::Network)
                    &&& final(self).task() == task_id
                    &&& final(self).settings() == (size, base)
                    &&& final(self).network_view() is None
                    &&& (final(self).memory_view() is Some <==> mem.len() > 0)
                    &&& (final(self).memory_view() matches Some(m) ==> m.name_view() == "memory"@
                        && m.mode() == base && m.capacity_view() == size && m.drained_view() == 0)
                    &&& final(wiring).pairs() == if mem.len() > 0 {
                        old(wiring).pairs() + pairs_with(mem, task_id)
                    } else {
                        old(wiring).pairs()
                    }
                }
            }),
    {
        let size = match channel_size {
            Some(n) => n,
            None => DEFAULT_CHANNEL_SIZE,
        };
        let base = match channel_base {
            Some(b) => b,
            None => ChannelBaseOn::Unbounded,
        };
        match base {
            ChannelBaseOn::Bounded => if size > MAX_CHANNEL_CAPACITY {
                return Err(OpenError::CapacityTooLarge);
            },
            ChannelBaseOn::Unbounded => {},
        }
        let mut memory_jobs: Vec<TaskId> = Vec::new();
        let mut network_jobs: Vec<TaskId> = Vec::new();
        let mut i: usize = 0;
        while i < parents.len()
            invariant
                i <= parents@.len(),
                memory_jobs@ == upstream_of(parents@.subrange(0, i as int), ExecutionEdge::Memory),
                network_jobs@ == upstream_of(parents@.subrange(0, i as int), ExecutionEdge::Network),
            decreases parents@.len() - i,
        {
            proof {
                assert(parents@.subrange(0, i + 1).drop_last() =~= parents@.subrange(0, i as int));
            }
            let (node, edge) = parents[i];
            match edge {
                ExecutionEdge::Memory => memory_jobs.push(node),
                ExecutionEdge::Network => network_jobs.push(node),
            }
            i = i + 1;
        }
        proof {
            assert(parents@.subrange(0, parents@.len() as int) =~= parents@);
        }
        self.task_id = task_id;
        self.channel_size = size;
        self.channel_base = base;
        self.network_receiver = None;
        if memory_jobs.len() > 0 {
            let rx = wiring.subscribe(&memory_jobs, task_id, size, base);
            self.memory_receiver = Some(rx);
        } else {
            self.memory_receiver = None;
        }
        Ok(network_jobs)
    }

    /// A task's input passes on records of the schema it receives.
    pub fn schema(&self, input_schema: FnSchema) -> (r: FnSchema)
        ensures
            r@ == input_schema@,
    {
        input_schema
    }

    /// The input of a task has no parallelism of its own: the task's
    /// operator sets it.
    pub fn parallelism(&self) -> (r: u16)
        ensures
            r == 0,
    {
        0
    }

    pub fn name(&self) -> (r: String)
        ensures
            r@ == "SystemInputFormat"@,
    {
        "SystemInputFormat".to_owned()
    }

    /// Hands the task the receiver that its network subscription returned.
    pub fn attach_network(&mut self, network_receiver: ChannelReceiver<Element>)
        ensures
            final(self).task() == old(self).task(),
            final(self).settings() == old(self).settings(),
            final(self).memory_view() == old(self).memory_view(),
            final(self).network_view() == Some(network_receiver),
    {
        self.network_receiver = Some(network_receiver);
    }

    /// The iterator over the task's receivers: the one receiver directly, or
    /// the memory receiver then the network receiver served in turn. The
    /// receivers stay with the task; the iterator reads other handles on the
    /// same channels.
    pub fn element_iter(&self) -> (r: ElementIterator)
        requires
            self.receiver_count() > 0,
        ensures
            self.receiver_count() == 1 ==> (r matches ElementIterator::Single(it) && it.receiver_view().name_view()
                == (if self.memory_view() is Some {
                self.memory_view()->Some_0
            } else {
                self.network_view()->Some_0
            }).name_view()),
            self.receiver_count() == 2 ==> (r matches ElementIterator::Multiple(m) && m.wf()
                && m.channels().len() == 2 && m.channels()[0].name_view() == self.memory_view()->Some_0.name_view()
                && m.channels()[1].name_view() == self.network_view()->Some_0.name_view()),
    {
        let mut receivers: Vec<ChannelReceiver<Element>> = Vec::new();
        match &self.memory_receiver {
            Some(n) => receivers.push(n.duplicate()),
            None => {},
        }
        match &self.network_receiver {
            Some(n) => receivers.push(n.duplicate()),
            None => {},
        }
        if receivers.len() == 1 {
            let rx = receivers.remove(0);
            ElementIterator::Single(ChannelIterator::new(rx))
        } else {
            ElementIterator::Multiple(MultiChannelIterator::new(receivers))
        }
    }
}

/// What one step of an aligned input yields.
#[derive(Debug)]
pub enum AlignedPoll {
    /// The elements the task passes on now, in order.
    Elements(Vec<Element>),
    /// Nothing was waiting; poll again.
    Idle,
    /// Every channel is disconnected, or the job is terminated.
    Finished,
    /// An input broke the barrier protocol.
    Misaligned(AlignError),
}

/// The input of a task with several channels: served in turn, and aligned
/// on barriers, so that elements a channel sends after a barrier wait until
/// every channel has delivered it.
pub struct AlignedInput {
    input: MultiChannelIterator,
    aligner: BarrierAligner,
}

impl AlignedInput {
    pub closed spec fn input_view(&self) -> MultiChannelIterator {
        self.input
    }

    pub closed spec fn aligner_view(&self) -> BarrierAligner {
        self.aligner
    }

    pub closed spec fn wf(&self) -> bool {
        &&& self.input.wf()
        &&& self.aligner.wf()
        &&& self.aligner.num_inputs() == self.input.channel_count()
    }

    pub fn new(input: MultiChannelIterator) -> (r: AlignedInput)
        requires
            input.wf(),
            input.channel_count() > 0,
        ensures
            r.wf(),
            r.input_view() == input,
            r.aligner_view().aligning() is None,
            r.aligner_view().held().len() == 0,
    {
        let n = input.receivers.len();
        AlignedInput { input, aligner: BarrierAligner::new(n) }
    }

    /// Takes the next element from the channels and passes it through the
    /// aligner.
    pub fn next(&mut self, status: &CoordinatorStatus) -> (r: AlignedPoll)
        requires
            old(self).wf(),
        ensures
            final(self).wf(),
            exists|p: InputPoll| {
                &&& #[trigger] MultiChannelIterator::advanced(&old(self).input_view(), &final(self).input_view(), p)
                &&& p is Idle ==> r is Idle && final(self).aligner_view() == old(self).aligner_view()
                &&& p is Finished ==> r is Finished && final(self).aligner_view() == old(self).aligner_view()
                &&& p matches InputPoll::Element(k, e) ==> exists|out: Result<Vec<Element>, AlignError>| {
                    &&& #[trigger] BarrierAligner::stepped(&old(self).aligner_view(), &final(self).aligner_view(), k, e@, out)
                    &&& out matches Ok(v) ==> r == AlignedPoll::Elements(v)
                    &&& out matches Err(x) ==> r == AlignedPoll::Misaligned(x)
                }
            },
    {
        let p = self.input.next(status);
        let ghost pg = p;
        let ghost mid = *self;
        let r = match p {
            InputPoll::Element(k, e) => {
                let out = self.aligner.on_element(k, e);
                let ghost outg = out;
                let r = match out {
                    Ok(v) => AlignedPoll::Elements(v),
                    Err(x) => AlignedPoll::Misaligned(x),
                };
                proof {
                    assert(BarrierAligner::stepped(&old(self).aligner_view(), &self.aligner_view(), k, pg->Element_1@, outg));
                    assert(outg matches Ok(v) ==> r == AlignedPoll::Elements(v));
                    assert(outg matches Err(x) ==> r == AlignedPoll::Misaligned(x));
                }
                r
            },
            InputPoll::Idle => AlignedPoll::Idle,
            InputPoll::Finished => AlignedPoll::Finished,
        };
        proof {
            assert(self.input_view() == mid.input_view());
            assert(MultiChannelIterator::advanced(&old(self).input_view(), &self.input_view(), pg));
        }
        r
    }
}

} // verus!
