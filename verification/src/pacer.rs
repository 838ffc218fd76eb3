//! The frame pacer's sliding window of frame durations.
//!
//! The window keeps the last ten frame durations, in nanoseconds. Each
//! recorded frame evicts the oldest sample once the window is full, and a
//! full window reports the rolling mean, scaled to microseconds. The
//! report is diagnostic only: it steers nothing.

use vstd::prelude::*;

verus! {

/// How many samples the sliding window holds.
pub const WINDOW_LEN: usize = 10;

/// Largest accepted duration: about nine years in nanoseconds, so that
/// a window's sum fits a 64-bit word.
pub const MAX_SAMPLE_NS: u64 = 0x0400_0000_0000_0000;

/// Sum of a sequence of durations.
pub open spec fn spec_sum(s: Seq<u64>) -> int
    decreases s.len(),
{
    if s.len() == 0 {
        0
    } else {
        spec_sum(s.drop_last()) + s.last()
    }
}

/// What the window holds after recording one sample: the sample joins at
/// the back and the oldest leaves once the length passes the window.
pub open spec fn spec_window_after(s: Seq<u64>, ns: u64) -> Seq<u64> {
    let pushed = s.push(ns);
    if pushed.len() > 10 {
        pushed.subrange(1, pushed.len() as int)
    } else {
        pushed
    }
}

/// The rolling mean a full window reports, in microseconds.
pub open spec fn spec_window_mean_us(s: Seq<u64>) -> int {
    spec_sum(s) / 10 / 1000
}

/// The sliding window of recent frame durations.
pub struct FramePacer {
    samples: Vec<u64>,
}

impl FramePacer {
    /// The recorded durations, oldest first.
    pub closed spec fn view_samples(self) -> Seq<u64> {
        self.samples@
    }

    /// The window never exceeds its length and every sample is bounded.
    pub closed spec fn wf(self) -> bool {
        &&& self.samples.len() <= 10
        &&& forall|i: int| 0 <= i < self.samples@.len() ==> self.samples@[i] <= MAX_SAMPLE_NS
    }

    /// An empty window.
    pub fn new() -> (r: FramePacer)
        ensures
            r.wf(),
            r.view_samples() == Seq::<u64>::empty(),
    {
        let v: Vec<u64> = Vec::new();
        proof {
            assert(v@ =~= Seq::<u64>::empty());
        }
        FramePacer { samples: v }
    }

    /// Record one frame's duration; once the window is full, report the
    /// rolling mean in microseconds.
    pub fn record(&mut self, ns: u64) -> (avg: Option<u64>)
        requires
            old(self).wf(),
            ns <= MAX_SAMPLE_NS,
        ensures
            final(self).wf(),
            final(self).view_samples() == spec_window_after(old(self).view_samples(), ns),
            final(self).view_samples().len() == 10 ==> avg == Some(
                spec_window_mean_us(final(self).view_samples()) as u64,
            ),
            final(self).view_samples().len() < 10 ==> avg is None,
    {
        self.samples.push(ns);
        if self.samples.len() > WINDOW_LEN {
            self.samples.remove(0);
            proof {
                assert(self.samples@ =~= spec_window_after(old(self).view_samples(), ns));
            }
        } else {
            proof {
                assert(self.samples@ =~= spec_window_after(old(self).view_samples(), ns));
            }
        }
        if self.samples.len() == WINDOW_LEN {
            let ghost s = self.samples@;
            let mut total: u64 = 0;
            let mut j: usize = 0;
            while j < 10
                invariant
                    j <= 10,
                    self.samples@ == s,
                    self.samples.len() == 10,
                    forall|i: int| 0 <= i < s.len() ==> s[i] <= MAX_SAMPLE_NS,
                    total as int == spec_sum(s.take(j as int)),
                    total <= (j as int) * (MAX_SAMPLE_NS as int),
                decreases 10 - j,
            {
                let v = self.samples[j];
                proof {
                    assert(s.take(j as int + 1).drop_last() =~= s.take(j as int));
                    assert(s.take(j as int + 1).last() == s[j as int]);
                }
                total = total + v;
                j = j + 1;
            }
            proof {
                assert(s.take(10) =~= s);
            }
            Some(total / 10 / 1000)
        } else {
            None
        }
    }
}

} // verus!
