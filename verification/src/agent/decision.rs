//! What to do about the belief that a turn is going well.

use vstd::prelude::*;

verus! {

/// How many decisions pass without an intervention after one, unless configured otherwise.
pub const DEFAULT_COOLDOWN_TURNS: usize = 3;

/// What to do.
#[derive(Clone, Copy, Debug, PartialEq, Eq, Structural)]
pub enum Decision {
    Nothing,
    Inject(RecoveryDirective),
    Abort,
}

/// How urgent an intervention is.
#[derive(Clone, Copy, Debug, PartialEq, Eq, Structural)]
pub enum RecoverySeverity {
    Reminder,
    Warning,
}

/// An intervention.
#[derive(Clone, Copy, Debug, PartialEq, Eq, Structural)]
pub struct RecoveryDirective {
    pub severity: RecoverySeverity,
}

/// Where the belief stands: below which of the three thresholds it lies.
#[derive(Clone, Copy, Debug, PartialEq, Eq, Structural)]
pub struct BeliefStanding {
    pub below_abort: bool,
    pub below_warn: bool,
    pub below_remind: bool,
}

/// Decides on interventions, with a pause after each.
#[derive(Debug)]
pub struct DecisionEngine {
    pub cooldown_turns: usize,
    pub cooldown_remaining: usize,
}

/// The decision, and how long the pause is after it. An abort ignores the pause and ends it; a
/// single soft failure above the warning threshold is passed over.
pub open spec fn decided(
    turns: usize,
    remaining: usize,
    standing: BeliefStanding,
    hard_signals: nat,
    soft_failures: nat,
) -> (Decision, usize) {
    if standing.below_abort {
        (Decision::Abort, 0)
    } else if remaining > 0 {
        (Decision::Nothing, (remaining - 1) as usize)
    } else if hard_signals == 0 && soft_failures <= 1 && !standing.below_warn {
        (Decision::Nothing, 0)
    } else if standing.below_warn {
        (Decision::Inject(RecoveryDirective { severity: RecoverySeverity::Warning }), turns)
    } else if standing.below_remind {
        (Decision::Inject(RecoveryDirective { severity: RecoverySeverity::Reminder }), turns)
    } else {
        (Decision::Nothing, 0)
    }
}

impl DecisionEngine {
    /// An engine that pauses for `cooldown_turns` decisions, with no pause to begin with.
    pub fn new(cooldown_turns: usize) -> (r: DecisionEngine)
        ensures
            r.cooldown_turns == cooldown_turns,
            r.cooldown_remaining == 0,
    {
        DecisionEngine { cooldown_turns, cooldown_remaining: 0 }
    }

    /// Decides, where one certain failure was seen.
    pub fn decide(&mut self, standing: BeliefStanding) -> (r: Decision)
        ensures
            (r, final(self).cooldown_remaining) == decided(
                old(self).cooldown_turns,
                old(self).cooldown_remaining,
                standing,
                1,
                0,
            ),
            final(self).cooldown_turns == old(self).cooldown_turns,
    {
        self.decide_with_signals(standing, 1, 0)
    }

    /// Decides, given how many certain failures the last calls had and how many others the
    /// turn had.
    pub fn decide_with_signals(
        &mut self,
        standing: BeliefStanding,
        hard_signals: usize,
        soft_failures: usize,
    ) -> (r: Decision)
        ensures
            (r, final(self).cooldown_remaining) == decided(
                old(self).cooldown_turns,
                old(self).cooldown_remaining,
                standing,
                hard_signals as nat,
                soft_failures as nat,
            ),
            final(self).cooldown_turns == old(self).cooldown_turns,
    {
        if standing.below_abort {
            self.cooldown_remaining = 0;
            return Decision::Abort;
        }
        if self.cooldown_remaining > 0 {
            self.cooldown_remaining = self.cooldown_remaining - 1;
            return Decision::Nothing;
        }
        if hard_signals == 0 && soft_failures <= 1 && !standing.below_warn {
            return Decision::Nothing;
        }
        if standing.below_warn {
            self.cooldown_remaining = self.cooldown_turns;
            return Decision::Inject(RecoveryDirective { severity: RecoverySeverity::Warning });
        }
        if standing.below_remind {
            self.cooldown_remaining = self.cooldown_turns;
            return Decision::Inject(RecoveryDirective { severity: RecoverySeverity::Reminder });
        }
        Decision::Nothing
    }

    /// Ends the pause.
    pub fn reset(&mut self)
        ensures
            final(self).cooldown_remaining == 0,
            final(self).cooldown_turns == old(self).cooldown_turns,
    {
        self.cooldown_remaining = 0;
    }

    /// How many decisions the pause still takes.
    pub fn cooldown_remaining(&self) -> (r: usize)
        ensures
            r == self.cooldown_remaining,
    {
        self.cooldown_remaining
    }
}

/// After an intervention the engine does not intervene again until the pause is over, however
/// bad the signals are, short of an abort.
pub proof fn pause_holds(
    turns: usize,
    remaining: usize,
    standing: BeliefStanding,
    hard_signals: nat,
    soft_failures: nat,
)
    requires
        remaining > 0,
        !standing.below_abort,
    ensures
        decided(turns, remaining, standing, hard_signals, soft_failures) == (
            Decision::Nothing,
            (remaining - 1) as usize,
        ),
{
}

/// An abort is never held back.
pub proof fn abort_is_never_paused(
    turns: usize,
    remaining: usize,
    standing: BeliefStanding,
    hard_signals: nat,
    soft_failures: nat,
)
    requires
        standing.below_abort,
    ensures
        decided(turns, remaining, standing, hard_signals, soft_failures) == (
            Decision::Abort,
            0usize,
        ),
{
}

/// The engine intervenes only where the pause is over, and then pauses for its full length.
pub proof fn intervention_starts_pause(
    turns: usize,
    remaining: usize,
    standing: BeliefStanding,
    hard_signals: nat,
    soft_failures: nat,
)
    requires
        decided(turns, remaining, standing, hard_signals, soft_failures).0 is Inject,
    ensures
        remaining == 0,
        decided(turns, remaining, standing, hard_signals, soft_failures).1 == turns,
{
}

/// A turn is broken off just where the belief has fallen lowest; the model is warned or reminded
/// just where no pause runs, the belief has fallen so far, and, short of a warning, a hard signal
/// or more than one soft failure points to it.
pub proof fn standing_decides(
    turns: usize,
    remaining: usize,
    standing: BeliefStanding,
    hard_signals: nat,
    soft_failures: nat,
)
    ensures
        ({
            let decision = decided(turns, remaining, standing, hard_signals, soft_failures).0;
            let free = !standing.below_abort && remaining == 0;
            let warning = Decision::Inject(
                RecoveryDirective { severity: RecoverySeverity::Warning },
            );
            let reminder = Decision::Inject(
                RecoveryDirective { severity: RecoverySeverity::Reminder },
            );
            &&& decision == Decision::Abort <==> standing.below_abort
            &&& decision == warning <==> free && standing.below_warn
            &&& decision == reminder <==> free && !standing.below_warn && standing.below_remind && (
            hard_signals >= 1 || soft_failures >= 2)
        }),
{
}

} // verus!
