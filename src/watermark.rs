use vstd::prelude::*;

verus! {

/// The smallest of the watermarks, if every channel has delivered one.
pub open spec fn min_watermark(s: Seq<Option<i64>>) -> Option<i64>
    decreases s.len(),
{
    if s.len() == 0 {
        None
    } else {
        let rest = min_watermark(s.drop_last());
        match s.last() {
            None => None,
            Some(w) => if s.len() == 1 {
                Some(w)
            } else {
                match rest {
                    None => None,
                    Some(m) => Some(if w < m { w } else { m }),
                }
            },
        }
    }
}

/// The watermark of a task with several input channels: the minimum of the
/// latest watermark of each channel, passed on only when it advances.
pub struct WatermarkTracker {
    latest: Vec<Option<i64>>,
    emitted: Option<i64>,
}

impl WatermarkTracker {
    /// The latest watermark of each channel.
    pub closed spec fn per_channel(&self) -> Seq<Option<i64>> {
        self.latest@
    }

    /// The last watermark passed on.
    pub closed spec fn current(&self) -> Option<i64> {
        self.emitted
    }

    pub fn new(num_inputs: usize) -> (r: WatermarkTracker)
        ensures
            r.per_channel().len() == num_inputs,
            forall|i: int| 0 <= i < num_inputs ==> #[trigger] r.per_channel()[i] is None,
            r.current() is None,
    {
        let mut latest: Vec<Option<i64>> = Vec::new();
        let mut i: usize = 0;
        while i < num_inputs
            invariant
                i <= num_inputs,
                latest@.len() == i,
                forall|j: int| 0 <= j < i ==> #[trigger] latest@[j] is None,
            decreases num_inputs - i,
        {
            latest.push(None);
            i = i + 1;
        }
        WatermarkTracker { latest, emitted: None }
    }

    fn minimum(&self) -> (r: Option<i64>)
        ensures
            r == min_watermark(self.latest@),
    {
        let mut m: Option<i64> = None;
        let mut i: usize = 0;
        while i < self.latest.len()
            invariant
                i <= self.latest@.len(),
                m == min_watermark(self.latest@.subrange(0, i as int)),
            decreases self.latest@.len() - i,
        {
            proof {
                assert(self.latest@.subrange(0, i + 1).drop_last() =~= self.latest@.subrange(0, i as int));
            }
            m = match self.latest[i] {
                None => None,
                Some(w) => if i == 0 {
                    Some(w)
                } else {
                    match m {
                        None => None,
                        Some(x) => Some(if w < x { w } else { x }),
                    }
                },
            };
            i = i + 1;
        }
        proof {
            assert(self.latest@.subrange(0, self.latest@.len() as int) =~= self.latest@);
        }
        m
    }

    /// Takes watermark `w` from input `channel`; returns the task's new
    /// watermark when the minimum over all channels moves past the last one
    /// passed on.
    pub fn on_watermark(&mut self, channel: usize, w: i64) -> (r: Option<i64>)
        ensures
            channel >= old(self).per_channel().len() ==> r is None && *final(self) == *old(self),
            channel < old(self).per_channel().len() ==> {
                let latest = old(self).per_channel().update(channel as int, Some(w));
                let m = min_watermark(latest);
                &&& final(self).per_channel() == latest
                &&& r == match (m, old(self).current()) {
                    (Some(x), Some(c)) => if x > c { Some(x) } else { None },
                    (Some(x), None) => Some(x),
                    (None, _) => None::<i64>,
                }
                &&& final(self).current() == if r is Some { r } else { old(self).current() }
            },
    {
        if channel >= self.latest.len() {
            return None;
        }
        self.latest.set(channel, Some(w));
        let m = self.minimum();
        let r = match (m, self.emitted) {
            (Some(x), Some(c)) => if x > c {
                Some(x)
            } else {
                None
            },
            (Some(x), None) => Some(x),
            (None, _) => None,
        };
        if r.is_some() {
            self.emitted = r;
        }
        r
    }
}

} // verus!
