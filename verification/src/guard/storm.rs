//! A brake on repeated identical tool calls.

use crate::text::{decimal, decimal_of, same_text};
use std::collections::VecDeque;
use vstd::prelude::*;

verus! {

/// Whether a call may run.
#[derive(Debug)]
pub enum StormDecision {
    Allow,
    Suppress(String),
}

/// A call: the tool, its arguments, and whether it changes anything.
pub struct StormCall {
    pub name: String,
    pub args: String,
    pub mutating: bool,
}

/// What a [`StormCall`] says.
pub struct StormCallView {
    pub name: Seq<char>,
    pub args: Seq<char>,
    pub mutating: bool,
}

impl View for StormCall {
    type V = StormCallView;

    open spec fn view(&self) -> StormCallView {
        StormCallView { name: self.name@, args: self.args@, mutating: self.mutating }
    }
}

/// The views of a sequence of calls.
pub open spec fn call_views(calls: Seq<StormCall>) -> Seq<StormCallView> {
    calls.map_values(|c: StormCall| c@)
}

/// The calls that change something.
pub open spec fn mutating_calls(calls: Seq<StormCallView>) -> Seq<StormCallView>
    decreases calls.len(),
{
    if calls.len() == 0 {
        seq![]
    } else if calls.last().mutating {
        mutating_calls(calls.drop_last()).push(calls.last())
    } else {
        mutating_calls(calls.drop_last())
    }
}

/// The last `n` of `calls`.
pub open spec fn last_calls(calls: Seq<StormCallView>, n: nat) -> Seq<StormCallView> {
    if calls.len() <= n {
        calls
    } else {
        calls.skip(calls.len() - n)
    }
}

/// How many of `calls` are of the tool `name` with `args`.
pub open spec fn repetitions(calls: Seq<StormCallView>, name: Seq<char>, args: Seq<char>) -> nat
    decreases calls.len(),
{
    if calls.len() == 0 {
        0
    } else {
        repetitions(calls.drop_last(), name, args) + if calls.last().name == name
            && calls.last().args == args {
            1nat
        } else {
            0
        }
    }
}

/// The window after one more call. A call that changes something makes the calls before it
/// that did not count no more; then the oldest calls leave until the window has its size.
pub open spec fn window_after(
    window: Seq<StormCallView>,
    call: StormCallView,
    max_window: nat,
) -> Seq<StormCallView> {
    let kept = if call.mutating {
        mutating_calls(window)
    } else {
        window
    };
    last_calls(kept.push(call), max_window)
}

/// Whether a call is stopped that comes behind the calls of `window`.
pub open spec fn is_stopped(
    window: Seq<StormCallView>,
    call: StormCallView,
    max_window: nat,
    threshold: nat,
) -> bool {
    repetitions(window_after(window, call, max_window), call.name, call.args) > threshold
}

/// What is said of a call that may not run.
pub open spec fn suppression(name: Seq<char>, count: nat, max_window: nat) -> Seq<char> {
    "Tool call suppressed: "@ + name + " repeated "@ + decimal(count) + " times in window of "@
        + decimal(max_window) + ". Rephrase or try different approach."@
}

/// Lets the first identical calls in a window pass, up to a threshold, and stops the rest.
pub struct StormBreaker {
    window: VecDeque<StormCall>,
    max_window: usize,
    threshold: usize,
}

impl StormBreaker {
    /// The calls in the window, the oldest first.
    pub closed spec fn window_spec(&self) -> Seq<StormCallView> {
        call_views(self.window@)
    }

    /// How many calls the window holds.
    pub closed spec fn max_window_spec(&self) -> nat {
        self.max_window as nat
    }

    /// How many identical calls may run.
    pub closed spec fn threshold_spec(&self) -> nat {
        self.threshold as nat
    }

    /// A breaker with an empty window.
    pub fn new(max_window: usize, threshold: usize) -> (r: StormBreaker)
        ensures
            r.window_spec() == Seq::<StormCallView>::empty(),
            r.max_window_spec() == max_window,
            r.threshold_spec() == threshold,
    {
        let r = StormBreaker { window: VecDeque::new(), max_window, threshold };
        assert(r.window_spec() =~= Seq::<StormCallView>::empty());
        r
    }

    /// Forgets all calls.
    pub fn reset(&mut self)
        ensures
            final(self).window_spec() == Seq::<StormCallView>::empty(),
            final(self).max_window_spec() == old(self).max_window_spec(),
            final(self).threshold_spec() == old(self).threshold_spec(),
    {
        self.window.clear();
        assert(self.window_spec() =~= Seq::<StormCallView>::empty());
    }

    fn forget_reads(&mut self)
        ensures
            final(self).window_spec() == mutating_calls(old(self).window_spec()),
            final(self).max_window == old(self).max_window,
            final(self).threshold == old(self).threshold,
    {
        let ghost all = self.window_spec();
        let mut kept: VecDeque<StormCall> = VecDeque::new();
        let ghost mut n: int = 0;
        assert(call_views(kept@) =~= mutating_calls(all.take(0)));
        assert(self.window_spec() =~= all.skip(0));
        while self.window.len() > 0
            invariant
                0 <= n <= all.len(),
                self.window_spec() == all.skip(n),
                self.window@.len() == all.len() - n,
                call_views(kept@) == mutating_calls(all.take(n)),
                self.max_window == old(self).max_window,
                self.threshold == old(self).threshold,
            decreases self.window@.len(),
        {
            let ghost before = self.window@;
            assert(call_views(before)[0] == before[0]@);
            match self.window.pop_front() {
                Some(call) => {
                    proof {
                        assert(all.skip(n)[0] == all[n]);
                        assert(all.take(n + 1).drop_last() =~= all.take(n));
                        assert(all.take(n + 1).last() == call@);
                        assert(self.window_spec() =~= all.skip(n + 1)) by {
                            assert forall|i: int| 0 <= i < self.window@.len() implies self.window@[i]
                                == before[i + 1] by {}
                            assert forall|i: int| 0 <= i < self.window@.len() implies self.window_spec()[i]
                                == all.skip(n + 1)[i] by {
                                assert(call_views(before)[i + 1] == all.skip(n)[i + 1]);
                            }
                        }
                        n = n + 1;
                    }
                    if call.mutating {
                        let ghost held = kept@;
                        kept.push_back(call);
                        assert(call_views(kept@) =~= call_views(held).push(call@));
                    }
                },
                None => {},
            }
        }
        assert(all.take(n) =~= all);
        self.window = kept;
    }

    fn count(&self, name: &str, args: &str) -> (r: usize)
        ensures
            r == repetitions(self.window_spec(), name@, args@),
    {
        let ghost all = self.window_spec();
        let mut n: usize = 0;
        let mut i: usize = 0;
        assert(all.take(0) =~= seq![]);
        while i < self.window.len()
            invariant
                i <= self.window@.len(),
                all == call_views(self.window@),
                n <= i,
                n == repetitions(all.take(i as int), name@, args@),
            decreases self.window@.len() - i,
        {
            proof {
                assert(all.take(i + 1).drop_last() =~= all.take(i as int));
                assert(all.take(i + 1).last() == self.window@[i as int]@);
            }
            let call: &StormCall = &self.window[i];
            if same_text(call.name.as_str(), name) && same_text(call.args.as_str(), args) {
                n += 1;
            }
            i += 1;
        }
        assert(all.take(i as int) =~= all);
        n
    }

    /// Notes a call and says whether it may run: the first calls in the window with the same
    /// tool and arguments may, up to the threshold.
    pub fn check(&mut self, name: &str, args: &str, mutating: bool) -> (r: StormDecision)
        ensures
            final(self).max_window_spec() == old(self).max_window_spec(),
            final(self).threshold_spec() == old(self).threshold_spec(),
            final(self).window_spec() == window_after(
                old(self).window_spec(),
                StormCallView { name: name@, args: args@, mutating },
                old(self).max_window_spec(),
            ),
            (r is Suppress) == is_stopped(
                old(self).window_spec(),
                StormCallView { name: name@, args: args@, mutating },
                old(self).max_window_spec(),
                old(self).threshold_spec(),
            ),
            ({
                let count = repetitions(final(self).window_spec(), name@, args@);
                match r {
                    StormDecision::Allow => count <= old(self).threshold_spec(),
                    StormDecision::Suppress(m) => count > old(self).threshold_spec() && m@
                        == suppression(name@, count, old(self).max_window_spec()),
                }
            }),
    {
        if mutating {
            self.forget_reads();
        }
        let ghost kept = self.window@;
        let call: StormCall = StormCall { name: name.to_owned(), args: args.to_owned(), mutating };
        self.window.push_back(call);
        let ghost full = self.window_spec();
        assert(full =~= call_views(kept).push(call@));
        assert(full =~= full.skip(0));
        while self.window.len() > self.max_window
            invariant
                self.max_window == old(self).max_window,
                self.threshold == old(self).threshold,
                self.window@.len() <= full.len(),
                self.window_spec() == full.skip(full.len() - self.window@.len()),
                full.len() > self.max_window ==> self.window@.len() >= self.max_window,
                full.len() <= self.max_window ==> self.window@.len() == full.len(),
            decreases self.window@.len(),
        {
            let ghost before = self.window@;
            let ghost from = full.len() - before.len();
            let _ = self.window.pop_front();
            proof {
                assert forall|i: int| 0 <= i < self.window@.len() implies self.window_spec()[i]
                    == full.skip(from + 1)[i] by {
                    assert(self.window@[i] == before[i + 1]);
                    assert(call_views(before)[i + 1] == full.skip(from)[i + 1]);
                }
                assert(self.window_spec() =~= full.skip(from + 1));
            }
        }
        let count: usize = self.count(name, args);
        if count > self.threshold {
            let message: String = "Tool call suppressed: ".to_owned().concat(name).concat(
                " repeated ",
            ).concat(decimal_of(count as u64).as_str()).concat(" times in window of ").concat(
                decimal_of(self.max_window as u64).as_str(),
            ).concat(". Rephrase or try different approach.");
            StormDecision::Suppress(message)
        } else {
            StormDecision::Allow
        }
    }
}

/// The window never holds more calls than its size.
pub proof fn window_is_bounded(window: Seq<StormCallView>, call: StormCallView, max_window: nat)
    ensures
        window_after(window, call, max_window).len() <= max_window,
{
}

/// After a call that changes something, the window holds only calls that change something.
pub proof fn mutation_forgets_reads(
    window: Seq<StormCallView>,
    call: StormCallView,
    max_window: nat,
    i: int,
)
    requires
        call.mutating,
        0 <= i < window_after(window, call, max_window).len(),
    ensures
        window_after(window, call, max_window)[i].mutating,
{
    lemma_mutating_calls(window);
}

proof fn lemma_mutating_filter(calls: Seq<StormCallView>)
    ensures
        mutating_calls(calls) == calls.filter(|c: StormCallView| c.mutating),
    decreases calls.len(),
{
    reveal(Seq::filter);
    if calls.len() > 0 {
        lemma_mutating_filter(calls.drop_last());
    }
}

/// The call that was just made is the last in the window, and those that leave are the oldest:
/// the window is the end of the calls that were kept, with the new one behind them. All calls are
/// kept, or, behind a call that changes something, all that change something.
pub proof fn oldest_calls_leave(window: Seq<StormCallView>, call: StormCallView, max_window: nat)
    ensures
        ({
            let after = window_after(window, call, max_window);
            let kept = if call.mutating {
                window.filter(|c: StormCallView| c.mutating)
            } else {
                window
            };
            &&& after.is_suffix_of(kept.push(call))
            &&& after.len() == if kept.len() + 1 <= max_window {
                kept.len() + 1
            } else {
                max_window
            }
            &&& max_window > 0 ==> after.last() == call
        }),
{
    lemma_mutating_filter(window);
}

/// A call is stopped just where more calls of the window than the threshold, itself among them,
/// are of the same tool with the same arguments.
pub proof fn stopped_iff_repeated(
    window: Seq<StormCallView>,
    call: StormCallView,
    max_window: nat,
    threshold: nat,
)
    ensures
        is_stopped(window, call, max_window, threshold) == (window_after(
            window,
            call,
            max_window,
        ).filter(|c: StormCallView| c.name == call.name && c.args == call.args).len() > threshold),
{
    lemma_repetitions_filter(window_after(window, call, max_window), call);
}

proof fn lemma_repetitions_filter(calls: Seq<StormCallView>, call: StormCallView)
    ensures
        repetitions(calls, call.name, call.args) == calls.filter(
            |c: StormCallView| c.name == call.name && c.args == call.args,
        ).len(),
    decreases calls.len(),
{
    reveal(Seq::filter);
    if calls.len() > 0 {
        lemma_repetitions_filter(calls.drop_last(), call);
    }
}

/// Whether the last `k` of `calls` are all `call`.
spec fn ends_with_calls(calls: Seq<StormCallView>, call: StormCallView, k: nat) -> bool {
    &&& k <= calls.len()
    &&& forall|i: int| calls.len() - k <= i < calls.len() ==> #[trigger] calls[i] == call
}

proof fn lemma_repetitions_of_end(calls: Seq<StormCallView>, call: StormCallView, k: nat)
    requires
        ends_with_calls(calls, call, k),
    ensures
        repetitions(calls, call.name, call.args) >= k,
    decreases k,
{
    if k > 0 {
        assert(calls[calls.len() - 1] == call);
        assert(ends_with_calls(calls.drop_last(), call, (k - 1) as nat));
        lemma_repetitions_of_end(calls.drop_last(), call, (k - 1) as nat);
    }
}

proof fn lemma_mutating_end(calls: Seq<StormCallView>, call: StormCallView, k: nat)
    requires
        ends_with_calls(calls, call, k),
        call.mutating,
    ensures
        ends_with_calls(mutating_calls(calls), call, k),
    decreases k,
{
    if k > 0 {
        assert(calls[calls.len() - 1] == call);
        let front = calls.drop_last();
        assert(ends_with_calls(front, call, (k - 1) as nat));
        lemma_mutating_end(front, call, (k - 1) as nat);
        let kept = mutating_calls(calls);
        assert(kept == mutating_calls(front).push(call));
        assert forall|i: int| kept.len() - k <= i < kept.len() implies #[trigger] kept[i]
            == call by {
            if i < kept.len() - 1 {
                assert(kept[i] == mutating_calls(front)[i]);
            }
        }
    }
}

proof fn lemma_window_of_repeated(
    window: Seq<StormCallView>,
    call: StormCallView,
    max_window: nat,
    k: nat,
)
    requires
        k <= max_window,
    ensures
        ends_with_calls(
            Seq::new(k, |i: int| call).fold_left(
                window,
                |w: Seq<StormCallView>, c: StormCallView| window_after(w, c, max_window),
            ),
            call,
            k,
        ),
    decreases k,
{
    let step = |w: Seq<StormCallView>, c: StormCallView| window_after(w, c, max_window);
    if k > 0 {
        let same = Seq::new(k, |i: int| call);
        let fewer = Seq::new((k - 1) as nat, |i: int| call);
        assert(same.drop_last() =~= fewer);
        lemma_window_of_repeated(window, call, max_window, (k - 1) as nat);
        let before = fewer.fold_left(window, step);
        let kept = if call.mutating {
            lemma_mutating_end(before, call, (k - 1) as nat);
            mutating_calls(before)
        } else {
            before
        };
        let full = kept.push(call);
        assert forall|i: int| full.len() - k <= i < full.len() implies #[trigger] full[i]
            == call by {
            if i < full.len() - 1 {
                assert(full[i] == kept[i]);
            }
        }
        let after = window_after(before, call, max_window);
        assert(same.fold_left(window, step) == after);
        assert forall|i: int| after.len() - k <= i < after.len() implies #[trigger] after[i]
            == call by {
            assert(after[i] == full[full.len() - after.len() + i]);
        }
    }
}

/// Whatever was called before: where a call is made over and over, the first that comes behind as
/// many as the threshold is stopped, as long as the window can hold so many.
pub proof fn repeated_call_is_stopped(
    window: Seq<StormCallView>,
    call: StormCallView,
    max_window: nat,
    threshold: nat,
)
    requires
        threshold < max_window,
    ensures
        is_stopped(
            Seq::new(threshold, |i: int| call).fold_left(
                window,
                |w: Seq<StormCallView>, c: StormCallView| window_after(w, c, max_window),
            ),
            call,
            max_window,
            threshold,
        ),
{
    let step = |w: Seq<StormCallView>, c: StormCallView| window_after(w, c, max_window);
    let same = Seq::new(threshold + 1, |i: int| call);
    lemma_window_of_repeated(window, call, max_window, threshold + 1);
    assert(same.drop_last() =~= Seq::new(threshold, |i: int| call));
    assert(same.last() == call);
    lemma_repetitions_of_end(same.fold_left(window, step), call, threshold + 1);
}

/// A call that no call of the window is the same as runs, unless none may run at all.
pub proof fn new_call_runs(
    window: Seq<StormCallView>,
    call: StormCallView,
    max_window: nat,
    threshold: nat,
)
    requires
        threshold > 0,
        forall|i: int|
            0 <= i < window.len() ==> (#[trigger] window[i]).name != call.name || window[i].args
                != call.args,
    ensures
        !is_stopped(window, call, max_window, threshold),
{
    oldest_calls_leave(window, call, max_window);
    let kept = if call.mutating {
        window.filter(|c: StormCallView| c.mutating)
    } else {
        window
    };
    let after = window_after(window, call, max_window);
    assert forall|i: int| 0 <= i < after.len() - 1 implies (#[trigger] after[i]).name != call.name
        || after[i].args != call.args by {
        let c = kept.push(call)[kept.len() + 1 - after.len() + i];
        assert(after[i] == c);
        assert(kept.contains(c)) by {
            assert(kept[kept.len() + 1 - after.len() + i] == c);
        }
        if call.mutating {
            window.lemma_filter_contains_rev(|c: StormCallView| c.mutating, c);
        }
    }
    lemma_one_at_end(after, call);
}

proof fn lemma_one_at_end(calls: Seq<StormCallView>, call: StormCallView)
    requires
        forall|i: int|
            0 <= i < calls.len() - 1 ==> (#[trigger] calls[i]).name != call.name || calls[i].args
                != call.args,
    ensures
        repetitions(calls, call.name, call.args) <= 1,
{
    if calls.len() > 0 {
        lemma_none_among(calls.drop_last(), call);
    }
}

proof fn lemma_none_among(calls: Seq<StormCallView>, call: StormCallView)
    requires
        forall|i: int|
            0 <= i < calls.len() ==> (#[trigger] calls[i]).name != call.name || calls[i].args
                != call.args,
    ensures
        repetitions(calls, call.name, call.args) == 0,
    decreases calls.len(),
{
    if calls.len() > 0 {
        assert(calls[calls.len() - 1].name != call.name || calls[calls.len() - 1].args
            != call.args);
        lemma_none_among(calls.drop_last(), call);
    }
}

proof fn lemma_mutating_calls(calls: Seq<StormCallView>)
    ensures
        forall|i: int| 0 <= i < mutating_calls(calls).len() ==> (#[trigger] mutating_calls(
            calls,
        )[i]).mutating,
        mutating_calls(calls).len() <= calls.len(),
    decreases calls.len(),
{
    if calls.len() > 0 {
        lemma_mutating_calls(calls.drop_last());
    }
}

} // verus!
