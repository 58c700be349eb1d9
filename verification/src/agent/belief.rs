//! The window of observations from which the belief in a turn is drawn.

use crate::guard::collector::{signal_views, Signal, SignalView};
use crate::guard::evidence::bounded_push;
use vstd::prelude::*;

verus! {

/// The greatest severity among `signals`, or zero where there is none.
pub open spec fn worst_severity(signals: Seq<SignalView>) -> nat
    decreases signals.len(),
{
    if signals.len() == 0 {
        0
    } else {
        let before = worst_severity(signals.drop_last());
        let last = signals.last().severity_percent as nat;
        if last > before {
            last
        } else {
            before
        }
    }
}

/// The sum of the failures in a window.
pub open spec fn failure_total(window: Seq<u32>) -> nat
    decreases window.len(),
{
    if window.len() == 0 {
        0
    } else {
        failure_total(window.drop_last()) + window.last() as nat
    }
}

proof fn lemma_total_bound(window: Seq<u32>)
    ensures
        failure_total(window) <= window.len() * 0xffff_ffff,
    decreases window.len(),
{
    if window.len() > 0 {
        lemma_total_bound(window.drop_last());
    }
}

proof fn lemma_total_front(window: Seq<u32>)
    requires
        window.len() > 0,
    ensures
        failure_total(window) == window[0] + failure_total(window.drop_first()),
    decreases window.len(),
{
    let rest = window.drop_first();
    if window.len() == 1 {
        assert(window.drop_last() =~= seq![]);
        assert(rest =~= seq![]);
    } else {
        lemma_total_front(window.drop_last());
        assert(rest.drop_last() =~= window.drop_last().drop_first());
        assert(rest.last() == window.last());
    }
}

/// The last observations of a turn, each the failure in hundredths that a call showed. What is
/// missing to a hundred is the success that it showed.
#[derive(Debug)]
pub struct BeliefWindow {
    pub failures: Vec<u32>,
    pub window_size: usize,
    pub failure_sum: u128,
}

impl BeliefWindow {
    /// Whether the sum is that of the window.
    pub open spec fn wf(&self) -> bool {
        self.failure_sum == failure_total(self.failures@)
    }

    /// A window that holds nothing yet.
    pub fn new(window_size: usize) -> (r: BeliefWindow)
        ensures
            r.wf(),
            r.failures@ == Seq::<u32>::empty(),
            r.window_size == window_size,
    {
        BeliefWindow { failures: Vec::new(), window_size, failure_sum: 0 }
    }

    /// The observation that the signals of a call make: their greatest severity, so that one
    /// failure is not counted twice.
    pub fn observation(signals: &Vec<Signal>) -> (r: u32)
        ensures
            r == worst_severity(signal_views(signals@)),
    {
        let ghost all = signal_views(signals@);
        let mut worst: u32 = 0;
        let mut i: usize = 0;
        assert(all.take(0) =~= seq![]);
        while i < signals.len()
            invariant
                i <= signals@.len(),
                all == signal_views(signals@),
                worst == worst_severity(all.take(i as int)),
            decreases signals@.len() - i,
        {
            proof {
                assert(all.take(i + 1).drop_last() =~= all.take(i as int));
                assert(all.take(i + 1).last() == signals@[i as int]@);
            }
            if signals[i].severity_percent > worst {
                worst = signals[i].severity_percent;
            }
            i += 1;
        }
        assert(all.take(i as int) =~= all);
        worst
    }

    /// Takes in the signals of a call. The oldest observation leaves a full window.
    pub fn observe(&mut self, signals: &Vec<Signal>)
        requires
            old(self).wf(),
        ensures
            final(self).wf(),
            final(self).window_size == old(self).window_size,
            final(self).failures@ == bounded_push(
                old(self).failures@,
                worst_severity(signal_views(signals@)) as u32,
                old(self).window_size as nat,
            ),
    {
        let worst: u32 = BeliefWindow::observation(signals);
        let ghost before = self.failures@;
        if self.failures.len() >= self.window_size && self.failures.len() > 0 {
            proof {
                lemma_total_front(before);
            }
            let oldest: u32 = self.failures.remove(0);
            assert(self.failures@ =~= before.drop_first());
            self.failure_sum = self.failure_sum - oldest as u128;
        }
        let ghost kept = self.failures@;
        let n: usize = self.failures.len();
        proof {
            lemma_total_bound(kept);
            assert(kept.len() * 0xffff_ffff <= 0xffff_ffff_ffff_ffff * 0xffff_ffff)
                by (nonlinear_arith)
                requires
                    kept.len() <= 0xffff_ffff_ffff_ffff,
            ;
        }
        self.failures.push(worst);
        assert(self.failures@.drop_last() =~= kept);
        self.failure_sum = self.failure_sum + worst as u128;
    }

    /// Forgets all observations.
    pub fn clear(&mut self)
        ensures
            final(self).wf(),
            final(self).failures@ == Seq::<u32>::empty(),
            final(self).window_size == old(self).window_size,
    {
        self.failures.clear();
        self.failure_sum = 0;
    }
}

/// A signal with the greatest severity of a call decides its observation.
pub proof fn worst_severity_is_greatest(signals: Seq<SignalView>, i: int)
    requires
        0 <= i < signals.len(),
    ensures
        signals[i].severity_percent <= worst_severity(signals),
    decreases signals.len(),
{
    if i < signals.len() - 1 {
        worst_severity_is_greatest(signals.drop_last(), i);
    }
}

} // verus!
