use vstd::prelude::*;
use crate::element::{Element, ElementModel};

verus! {

/// A barrier that breaks the alignment protocol.
#[derive(Clone, Copy, Debug, PartialEq, Eq, Structural)]
pub enum AlignError {
    /// The channel index names no input of the task.
    UnknownChannel,
    /// A channel delivered a barrier while an alignment on another id was
    /// in progress.
    BarrierMismatch,
    /// A channel delivered the same barrier twice within one alignment.
    DuplicateBarrier,
}

/// Barrier alignment for a task with several input channels.
///
/// Once one channel delivers `Barrier(c)`, elements of the channels that have
/// already passed `c` are held back; the others flow on. When every channel
/// has delivered `Barrier(c)`, the barrier is forwarded once, followed by the
/// held-back elements in arrival order.
pub struct BarrierAligner {
    current: Option<u64>,
    blocked: Vec<bool>,
    buffered: Vec<Element>,
}

pub open spec fn all_true(s: Seq<bool>) -> bool {
    forall|i: int| 0 <= i < s.len() ==> #[trigger] s[i]
}

pub open spec fn models(s: Seq<Element>) -> Seq<ElementModel> {
    s.map_values(|e: Element| e@)
}

impl BarrierAligner {
    pub closed spec fn num_inputs(&self) -> nat {
        self.blocked@.len()
    }

    /// The id being aligned, if any.
    pub closed spec fn aligning(&self) -> Option<u64> {
        self.current
    }

    /// Which channels have delivered the barrier being aligned.
    pub closed spec fn passed(&self) -> Seq<bool> {
        self.blocked@
    }

    /// The elements held back, in arrival order.
    pub closed spec fn held(&self) -> Seq<ElementModel> {
        models(self.buffered@)
    }

    pub closed spec fn wf(&self) -> bool {
        &&& self.blocked@.len() > 0
        &&& self.current is None ==> (!exists|i: int|
            0 <= i < self.blocked@.len() && #[trigger] self.blocked@[i]) && self.buffered@.len() == 0
        &&& self.current is Some ==> !all_true(self.blocked@)
    }

    /// An aligner for a task with `num_inputs` input channels.
    pub fn new(num_inputs: usize) -> (r: BarrierAligner)
        requires
            num_inputs > 0,
        ensures
            r.wf(),
            r.num_inputs() == num_inputs,
            r.aligning() is None,
            r.held().len() == 0,
    {
        let mut blocked: Vec<bool> = Vec::new();
        let mut i: usize = 0;
        while i < num_inputs
            invariant
                i <= num_inputs,
                blocked@.len() == i,
                forall|j: int| 0 <= j < i ==> !#[trigger] blocked@[j],
            decreases num_inputs - i,
        {
            blocked.push(false);
            i = i + 1;
        }
        BarrierAligner { current: None, blocked, buffered: Vec::new() }
    }

    fn all_passed(&self) -> (r: bool)
        ensures
            r == all_true(self.blocked@),
    {
        let mut i: usize = 0;
        while i < self.blocked.len()
            invariant
                i <= self.blocked@.len(),
                forall|j: int| 0 <= j < i ==> #[trigger] self.blocked@[j],
            decreases self.blocked@.len() - i,
        {
            if !self.blocked[i] {
                return false;
            }
            i = i + 1;
        }
        true
    }

    fn reset(&mut self)
        ensures
            final(self).current is None,
            final(self).blocked@.len() == old(self).blocked@.len(),
            forall|j: int| 0 <= j < final(self).blocked@.len() ==> !#[trigger] final(self).blocked@[j],
            final(self).buffered@ == old(self).buffered@,
    {
        let mut i: usize = 0;
        while i < self.blocked.len()
            invariant
                i <= self.blocked@.len(),
                self.blocked@.len() == old(self).blocked@.len(),
                self.buffered@ == old(self).buffered@,
                forall|j: int| 0 <= j < i ==> !#[trigger] self.blocked@[j],
            decreases self.blocked@.len() - i,
        {
            self.blocked.set(i, false);
            i = i + 1;
        }
        self.current = None;
    }

    /// What taking element `e` on input `channel` does, from aligner state
    /// `a` to state `b` with result `r`.
    pub open spec fn stepped(
        a: &Self,
        b: &Self,
        channel: usize,
        e: ElementModel,
        r: Result<Vec<Element>, AlignError>,
    ) -> bool {
        &&& b.wf()
        &&& b.num_inputs() == a.num_inputs()
        &&& channel >= a.num_inputs() ==> r == Err::<Vec<Element>, AlignError>(AlignError::UnknownChannel)
        &&& r is Err ==> *b == *a
        &&& channel < a.num_inputs() ==> match e {
            ElementModel::Barrier(c) => {
                let passed = a.passed().update(channel as int, true);
                match a.aligning() {
                    Some(x) if x != c => r == Err::<Vec<Element>, AlignError>(AlignError::BarrierMismatch),
                    Some(x) if a.passed()[channel as int] => r == Err::<Vec<Element>, AlignError>(
                        AlignError::DuplicateBarrier,
                    ),
                    _ => r is Ok && if all_true(passed) {
                        // the last channel completes the cut
                        &&& models(r->Ok_0@) == seq![e] + a.held()
                        &&& b.aligning() is None
                        &&& b.held().len() == 0
                    } else {
                        &&& r->Ok_0@.len() == 0
                        &&& b.aligning() == Some(c)
                        &&& b.passed() == passed
                        &&& b.held() == a.held()
                    },
                }
            },
            _ => r is Ok && if a.aligning() is Some && a.passed()[channel as int] {
                &&& r->Ok_0@.len() == 0
                &&& b.held() == a.held().push(e)
                &&& b.aligning() == a.aligning()
                &&& b.passed() == a.passed()
            } else {
                &&& models(r->Ok_0@) == seq![e]
                &&& *b == *a
            },
        }
    }

    /// Takes one element that arrived on input `channel` and returns what the
    /// task passes on now.
    pub fn on_element(&mut self, channel: usize, e: Element) -> (r: Result<Vec<Element>, AlignError>)
        requires
            old(self).wf(),
        ensures
            Self::stepped(old(self), final(self), channel, e@, r),
    {
        if channel >= self.blocked.len() {
            return Err(AlignError::UnknownChannel);
        }
        match e {
            Element::Barrier(c) => {
                match self.current {
                    Some(a) => {
                        if a != c {
                            return Err(AlignError::BarrierMismatch);
                        }
                        if self.blocked[channel] {
                            return Err(AlignError::DuplicateBarrier);
                        }
                    },
                    None => {},
                }
                self.blocked.set(channel, true);
                self.current = Some(c);
                if self.all_passed() {
                    let mut held: Vec<Element> = Vec::new();
                    std::mem::swap(&mut held, &mut self.buffered);
                    let mut out: Vec<Element> = Vec::new();
                    out.push(Element::Barrier(c));
                    let ghost first = out@;
                    let ghost held0 = held@;
                    out.append(&mut held);
                    proof {
                        assert(out@ == first + held0);
                        assert(models(out@) =~= seq![Element::Barrier(c)@] + models(held0));
                    }
                    self.reset();
                    proof {
                        assert(models(self.buffered@) =~= Seq::<ElementModel>::empty());
                    }
                    Ok(out)
                } else {
                    Ok(Vec::new())
                }
            },
            _ => {
                if self.current.is_some() && self.blocked[channel] {
                    let ghost e_model = e@;
                    self.buffered.push(e);
                    proof {
                        assert(models(self.buffered@) =~= models(old(self).buffered@).push(e_model));
                    }
                    Ok(Vec::new())
                } else {
                    let mut out: Vec<Element> = Vec::new();
                    let ghost e_model = e@;
                    out.push(e);
                    proof {
                        assert(models(out@) =~= seq![e_model]);
                    }
                    Ok(out)
                }
            },
        }
    }
}

} // verus!
