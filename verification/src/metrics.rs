//! Step counting against a hard iteration budget.

use vstd::prelude::*;

verus! {

/// Runtime counters of one agent run: how many steps were taken and how many
/// the run may take in total (`0` meaning unbounded).
#[derive(Clone, Debug, PartialEq, Eq, Structural)]
pub struct Metrics {
    /// Steps taken so far.
    pub current_step: usize,
    /// The budget; `0` means no limit.
    pub max_steps: usize,
}

/// Whether the `n`-th step (1-indexed) of a run with budget `max` is allowed:
/// a zero budget never refuses, a positive budget refuses from the `max`-th
/// call on.
pub open spec fn step_allowed(n: nat, max: nat) -> bool {
    max == 0 || n < max
}

impl Metrics {
    /// A fresh counter for a run with the given budget.
    pub fn new(max_steps: usize) -> (r: Metrics)
        ensures
            r.current_step == 0,
            r.max_steps == max_steps,
    {
        Metrics { current_step: 0, max_steps }
    }

    /// Advances the step counter; reports whether the step just taken was
    /// still inside the budget.
    pub fn advance(&mut self) -> (r: bool)
        requires
            old(self).current_step < usize::MAX,
        ensures
            final(self).current_step == old(self).current_step + 1,
            final(self).max_steps == old(self).max_steps,
            r == step_allowed(final(self).current_step as nat, final(self).max_steps as nat),
    {
        self.current_step = self.current_step + 1;
        self.max_steps == 0 || self.current_step < self.max_steps
    }
}

/// Budget refusal is irreversible: once some call is refused, every later
/// call of the same run is refused as well.
pub proof fn lemma_step_refusal_is_monotonic(n1: nat, n2: nat, max: nat)
    requires
        n1 <= n2,
        !step_allowed(n1, max),
    ensures
        !step_allowed(n2, max),
{
}

} // verus!
