use vstd::prelude::*;
use crate::channel::{bump, ChannelBaseOn, ChannelReceiver, ChannelSender, MAX_CHANNEL_CAPACITY, named_channel_with_base};
use crate::element::{Element, ElementModel, TaskId};
use crate::graph::Partitioner;
use crate::partition::{hash_partition, partition_of};

verus! {

/// All downstream indices `0..n`.
pub open spec fn every_task(n: u16) -> Seq<u16> {
    Seq::new(n as nat, |i: int| i as u16)
}

/// The downstream tasks, among `n`, that an element published by `up`
/// reaches. Control elements reach every downstream task, so that each of
/// them sees every barrier; records go where the partitioner sends them.
pub open spec fn targets(e: ElementModel, p: Partitioner, up: TaskId, n: u16, turn: u64) -> Seq<u16> {
    match e {
        ElementModel::Record(r) => match p {
            Partitioner::Forward => seq![(up.task_number % n) as u16],
            Partitioner::HashByKey => seq![
                partition_of(
                    match r.key {
                        Some(k) => k,
                        None => Seq::empty(),
                    },
                    n,
                ),
            ],
            Partitioner::Rebalance => seq![(turn % (n as u64)) as u16],
            Partitioner::Broadcast => every_task(n),
        },
        _ => every_task(n),
    }
}

/// A barrier that an upstream task publishes goes to every downstream task,
/// and to each of them once, whatever the partitioner.
pub proof fn lemma_barrier_reaches_each_task_once(c: u64, p: Partitioner, up: TaskId, n: u16, turn: u64)
    ensures
        targets(ElementModel::Barrier(c), p, up, n, turn).no_duplicates(),
        forall|d: u16| d < n ==> #[trigger] targets(ElementModel::Barrier(c), p, up, n, turn).contains(d),
        forall|d: u16| #[trigger] targets(ElementModel::Barrier(c), p, up, n, turn).contains(d) ==> d < n,
{
    let t = targets(ElementModel::Barrier(c), p, up, n, turn);
    assert(t == every_task(n));
    assert forall|d: u16| d < n implies #[trigger] t.contains(d) by {
        assert(t[d as int] == d);
    }
}

fn all_tasks(n: u16) -> (r: Vec<u16>)
    ensures
        r@ == every_task(n),
{
    let mut out: Vec<u16> = Vec::new();
    let mut i: u16 = 0;
    while i < n
        invariant
            i <= n,
            out@ == every_task(i),
        decreases n - i,
    {
        out.push(i);
        i = i + 1;
        proof {
            assert(out@ =~= every_task(i));
        }
    }
    out
}

/// Routes an element published by task `up` to the indices of the
/// downstream tasks, among `num_downstream`, whose channels receive it.
/// `turn` counts the records a rebalancing upstream has published before.
pub fn route(e: &Element, partitioner: Partitioner, up: TaskId, num_downstream: u16, turn: u64) -> (r:
    Vec<u16>)
    requires
        num_downstream > 0,
    ensures
        r@ == targets(e@, partitioner, up, num_downstream, turn),
        forall|i: int| 0 <= i < r@.len() ==> #[trigger] r@[i] < num_downstream,
{
    let n = num_downstream;
    let r = match e {
        Element::Record(rec) => match partitioner {
            Partitioner::Forward => {
                let mut v: Vec<u16> = Vec::new();
                v.push(up.task_number % n);
                v
            },
            Partitioner::HashByKey => {
                let mut v: Vec<u16> = Vec::new();
                match &rec.key {
                    Some(k) => v.push(hash_partition(k, n)),
                    None => {
                        let empty: Vec<u8> = Vec::new();
                        proof {
                            assert(empty@ =~= Seq::<u8>::empty());
                        }
                        v.push(hash_partition(&empty, n));
                    },
                }
                v
            },
            Partitioner::Rebalance => {
                let mut v: Vec<u16> = Vec::new();
                v.push((turn % (n as u64)) as u16);
                v
            },
            Partitioner::Broadcast => all_tasks(n),
        },
        _ => all_tasks(n),
    };
    r
}

/// One wired edge inside a worker: the upstream task, the downstream task
/// and the sending end of the downstream task's input channel.
#[verifier::reject_recursive_types(T)]
pub struct MemoryRoute<T> {
    pub upstream: TaskId,
    pub downstream: TaskId,
    sender: ChannelSender<T>,
}

/// The in-process wiring of a worker, keyed by upstream and downstream
/// task. A downstream task subscribes once to all its co-located upstream
/// tasks and reads them from one channel; upstream tasks publish through
/// the routes that name them.
pub struct MemoryPubSub {
    routes: Vec<MemoryRoute<Element>>,
}

pub open spec fn pairs_with(ups: Seq<TaskId>, down: TaskId) -> Seq<(TaskId, TaskId)> {
    ups.map_values(|u: TaskId| (u, down))
}

impl MemoryPubSub {
    /// The wired (upstream, downstream) pairs, in the order of wiring.
    pub closed spec fn pairs(&self) -> Seq<(TaskId, TaskId)> {
        self.routes@.map_values(|r: MemoryRoute<Element>| (r.upstream, r.downstream))
    }

    pub fn new() -> (r: MemoryPubSub)
        ensures
            r.pairs().len() == 0,
    {
        let r = MemoryPubSub { routes: Vec::new() };
        proof {
            assert(r.pairs() =~= Seq::<(TaskId, TaskId)>::empty());
        }
        r
    }

    /// Wires every task of `upstream_task_ids` to `downstream_task_id`
    /// through one new channel, and returns its receiving end.
    pub fn subscribe(
        &mut self,
        upstream_task_ids: &Vec<TaskId>,
        downstream_task_id: TaskId,
        capacity: usize,
        base_on: ChannelBaseOn,
    ) -> (r: ChannelReceiver<Element>)
        requires
            base_on == ChannelBaseOn::Bounded ==> capacity <= MAX_CHANNEL_CAPACITY,
        ensures
            final(self).pairs() == old(self).pairs() + pairs_with(upstream_task_ids@, downstream_task_id),
            r.drained_view() == 0,
            r.name_view() == "memory"@,
            r.mode() == base_on,
            r.capacity_view() == capacity,
    {
        let (sender, receiver) = named_channel_with_base("memory", Vec::new(), capacity, base_on);
        let mut i: usize = 0;
        while i < upstream_task_ids.len()
            invariant
                i <= upstream_task_ids@.len(),
                self.pairs() == old(self).pairs() + pairs_with(
                    upstream_task_ids@.subrange(0, i as int),
                    downstream_task_id,
                ),
            decreases upstream_task_ids@.len() - i,
        {
            let route = MemoryRoute {
                upstream: upstream_task_ids[i],
                downstream: downstream_task_id,
                sender: sender.duplicate(),
            };
            let ghost before = self.routes@;
            self.routes.push(route);
            i = i + 1;
            proof {
                assert(upstream_task_ids@.subrange(0, i as int) =~= upstream_task_ids@.subrange(
                    0,
                    i - 1,
                ).push(upstream_task_ids@[i - 1]));
                assert(self.pairs() =~= before.map_values(
                    |r: MemoryRoute<Element>| (r.upstream, r.downstream),
                ).push((upstream_task_ids@[i - 1], downstream_task_id)));
                assert(self.pairs() =~= old(self).pairs() + pairs_with(
                    upstream_task_ids@.subrange(0, i as int),
                    downstream_task_id,
                ));
            }
        }
        proof {
            assert(upstream_task_ids@.subrange(0, upstream_task_ids@.len() as int) =~= upstream_task_ids@);
        }
        receiver
    }

    /// The accepted count of the sending end of route `i`.
    pub closed spec fn route_accepted(&self, i: int) -> u64 {
        self.routes@[i].sender.accepted_view()
    }

    /// Whether route `i` leads from `upstream` to one of the downstream
    /// task numbers in `targets`.
    pub open spec fn route_matches(&self, i: int, upstream: TaskId, targets: Seq<u16>) -> bool {
        self.pairs()[i].0 == upstream && targets.contains(self.pairs()[i].1.task_number)
    }

    /// The positions of the routes from `upstream` to a downstream task
    /// whose number is in `targets`, in increasing order.
    pub fn matching_routes(&self, upstream: TaskId, targets: &Vec<u16>) -> (r: Vec<usize>)
        ensures
            forall|a: int| 0 <= a < r@.len() ==> #[trigger] r@[a] < self.pairs().len(),
            forall|a: int, b: int| 0 <= a < b < r@.len() ==> r@[a] < r@[b],
            forall|i: int|
                0 <= i < self.pairs().len() ==> (r@.contains(i as usize) <==> #[trigger] self.route_matches(
                    i,
                    upstream,
                    targets@,
                )),
    {
        let mut out: Vec<usize> = Vec::new();
        let mut i: usize = 0;
        proof {
            assert(self.pairs().len() == self.routes@.len());
        }
        while i < self.routes.len()
            invariant
                i <= self.routes@.len(),
                self.pairs().len() == self.routes@.len(),
                forall|a: int| 0 <= a < out@.len() ==> #[trigger] out@[a] < i,
                forall|a: int, b: int| 0 <= a < b < out@.len() ==> out@[a] < out@[b],
                forall|c: int|
                    0 <= c < i ==> (out@.contains(c as usize) <==> #[trigger] self.route_matches(
                        c,
                        upstream,
                        targets@,
                    )),
            decreases self.routes@.len() - i,
        {
            proof {
                assert(self.pairs()[i as int] == (self.routes@[i as int].upstream, self.routes@[i as int].downstream));
            }
            if self.routes[i].upstream == upstream && contains_u16(targets, self.routes[i].downstream.task_number) {
                let ghost before = out@;
                out.push(i);
                proof {
                    assert forall|c: int|
                        0 <= c < i + 1 implies (out@.contains(c as usize) <==> #[trigger] self.route_matches(
                            c,
                            upstream,
                            targets@,
                        )) by {
                        if c < i {
                            if out@.contains(c as usize) {
                                let a = choose|a: int| 0 <= a < out@.len() && out@[a] == c as usize;
                                if a == before.len() {
                                } else {
                                    assert(before[a] == c as usize);
                                }
                            }
                            if before.contains(c as usize) {
                                let a = choose|a: int| 0 <= a < before.len() && before[a] == c as usize;
                                assert(out@[a] == c as usize);
                            }
                        } else {
                            assert(out@[before.len() as int] == i);
                        }
                    }
                }
            } else {
                proof {
                    assert(!out@.contains(i));
                }
            }
            i = i + 1;
        }
        out
    }

    /// Publishes an element of task `upstream` to the downstream tasks the
    /// partitioner picks among its `num_downstream` parallel instances.
    /// Every matching route is offered the element, in order, waiting while
    /// its channel is full; the result lists the routes offered and whether
    /// each took it. Routes that do not match are not touched.
    pub fn publish(
        &mut self,
        upstream: TaskId,
        e: &Element,
        partitioner: Partitioner,
        num_downstream: u16,
        turn: u64,
    ) -> (r: Publication)
        requires
            num_downstream > 0,
        ensures
            final(self).pairs() == old(self).pairs(),
            r.taken@.len() == r.routes@.len(),
            forall|a: int, b: int| 0 <= a < b < r.routes@.len() ==> r.routes@[a] < r.routes@[b],
            forall|i: int|
                0 <= i < old(self).pairs().len() ==> (r.routes@.contains(i as usize) <==> #[trigger] old(self).route_matches(i, upstream, targets(e@, partitioner, upstream, num_downstream, turn))),
            forall|a: int|
                0 <= a < r.routes@.len() ==> #[trigger] final(self).route_accepted(r.routes@[a] as int) == if r.taken@[a] {
                    bump(old(self).route_accepted(r.routes@[a] as int))
                } else {
                    old(self).route_accepted(r.routes@[a] as int)
                },
            forall|i: int|
                0 <= i < old(self).pairs().len() && !r.routes@.contains(i as usize) ==> #[trigger] final(self).route_accepted(i) == old(self).route_accepted(i),
    {
        let chosen = route(e, partitioner, upstream, num_downstream, turn);
        let matching = self.matching_routes(upstream, &chosen);
        let mut taken: Vec<bool> = Vec::new();
        let mut j: usize = 0;
        while j < matching.len()
            invariant
                self.pairs() == old(self).pairs(),
                self.routes@.len() == old(self).routes@.len(),
                self.pairs().len() == self.routes@.len(),
                j <= matching@.len(),
                taken@.len() == j,
                forall|a: int| 0 <= a < matching@.len() ==> #[trigger] matching@[a] < old(self).pairs().len(),
                forall|a: int, b: int| 0 <= a < b < matching@.len() ==> matching@[a] < matching@[b],
                forall|a: int|
                    0 <= a < j ==> #[trigger] self.route_accepted(matching@[a] as int) == if taken@[a] {
                        bump(old(self).route_accepted(matching@[a] as int))
                    } else {
                        old(self).route_accepted(matching@[a] as int)
                    },
                forall|i: int|
                    0 <= i < old(self).pairs().len() && !(exists|a: int| 0 <= a < j && matching@[a] == i)
                        ==> #[trigger] self.route_accepted(i) == old(self).route_accepted(i),
            decreases matching@.len() - j,
        {
            let k = matching[j];
            let ghost before = *self;
            let ghost before_routes = self.routes@;
            let mut rt = self.routes.remove(k);
            let old_acc = rt.sender.accepted();
            let sent = rt.sender.send(e.duplicate());
            let ghost rt_snap = rt;
            self.routes.insert(k, rt);
            proof {
                assert(self.routes@[k as int] == rt_snap);
                assert(old_acc == before.route_accepted(k as int));
                assert(self.pairs() =~= old(self).pairs());
                assert forall|i: int| 0 <= i < self.routes@.len() && i != k implies #[trigger] self.route_accepted(i)
                    == before.route_accepted(i) by {
                    assert(self.routes@[i] == before_routes[i]);
                }
                assert(before.route_accepted(k as int) == old(self).route_accepted(k as int)) by {
                    if exists|a: int| 0 <= a < j && matching@[a] == k {
                        let a = choose|a: int| 0 <= a < j && matching@[a] == k;
                        assert(matching@[a] < matching@[j as int]);
                    }
                }
            }
            taken.push(sent.is_ok());
            proof {
                assert forall|a: int|
                    0 <= a < j + 1 implies #[trigger] self.route_accepted(matching@[a] as int) == if taken@[a] {
                        bump(old(self).route_accepted(matching@[a] as int))
                    } else {
                        old(self).route_accepted(matching@[a] as int)
                    } by {
                    if a < j {
                        assert(matching@[a] < matching@[j as int]);
                        assert(self.route_accepted(matching@[a] as int) == before.route_accepted(matching@[a] as int));
                    }
                }
                assert forall|i: int|
                    0 <= i < old(self).pairs().len() && !(exists|a: int| 0 <= a < j + 1 && matching@[a] == i)
                        implies #[trigger] self.route_accepted(i) == old(self).route_accepted(i) by {
                    assert(i != k);
                    assert(!(exists|a: int| 0 <= a < j && matching@[a] == i));
                    assert(self.route_accepted(i) == before.route_accepted(i));
                }
            }
            j = j + 1;
        }
        proof {
            assert forall|i: int|
                0 <= i < old(self).pairs().len() && !matching@.contains(i as usize) implies #[trigger] self.route_accepted(i)
                    == old(self).route_accepted(i) by {
                if exists|a: int| 0 <= a < j && matching@[a] == i {
                    let a = choose|a: int| 0 <= a < j && matching@[a] == i;
                    assert(matching@[a] == i as usize);
                }
            }
        }
        Publication { routes: matching, taken }
    }
}

/// What a publish did: the routes offered the element, in order, and
/// whether each route's channel took it.
#[derive(Debug)]
pub struct Publication {
    pub routes: Vec<usize>,
    pub taken: Vec<bool>,
}

fn contains_u16(v: &Vec<u16>, x: u16) -> (r: bool)
    ensures
        r == v@.contains(x),
{
    let mut i: usize = 0;
    while i < v.len()
        invariant
            i <= v@.len(),
            forall|j: int| 0 <= j < i ==> v@[j] != x,
        decreases v@.len() - i,
    {
        if v[i] == x {
            return true;
        }
        i = i + 1;
    }
    false
}

} // verus!
