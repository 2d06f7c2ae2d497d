//! The deadline executor: a bounded polling loop that lets an absolute
//! deadline be enforced across an arbitrary sequence of blocking waits.
//!
//! Time is an instant on the wall clock, counted in milliseconds since the
//! Unix epoch. A deadline is one such instant, fixed once computed; the
//! remaining budget is recomputed from the clock before every step and may
//! reach zero, which means the deadline has passed.

use vstd::prelude::*;

verus! {

/// One cooperative unit of work, driven by `execute_with_deadline`.
pub trait DeadlineStep {
    /// What every step call preserves.
    spec fn inv(&self) -> bool;

    /// Whether the work has signalled completion.
    spec fn done(&self) -> bool;

    /// Performs one bounded unit of work. `remaining_ms` is the time left
    /// until the caller's deadline; the step is responsible for not running
    /// longer than that — the executor cannot preempt it. Returns true
    /// exactly when the work is complete; a step that has signalled
    /// completion is never invoked again.
    fn step(&mut self, remaining_ms: u64) -> (complete: bool)
        requires
            old(self).inv(),
            !old(self).done(),
        ensures
            final(self).inv(),
            complete == final(self).done();
}

/// Relies on std::time::SystemTime::now and duration_since: the wall-clock
/// time, in milliseconds since the Unix epoch; zero if the clock reads
/// earlier than the epoch. What it returns depends on the machine's clock,
/// so nothing is promised of the value.
#[verifier::external_body]
pub(crate) fn clock_now_ms() -> u64 {
    match std::time::SystemTime::now().duration_since(std::time::UNIX_EPOCH) {
        Ok(d) => d.as_millis() as u64,
        Err(_) => 0,
    }
}

/// Runs `state`'s step in a loop until the step reports completion or the
/// clock passes `deadline_ms`, whichever comes first.
///
/// Each call of the step receives the time still left, and must itself
/// finish within it for the whole loop to respect the deadline: this is a
/// cooperative contract, not an enforced one. The loop checks the clock
/// once per iteration, so a step is never started after the deadline. The
/// outcome of the work is read from `state` after the call returns.
///
/// The loop also stops after an astronomically large number of iterations;
/// that bound exists so that each round provably makes progress, and no
/// clock that advances at all can reach it before the deadline passes.
pub fn execute_with_deadline<S: DeadlineStep>(deadline_ms: u64, state: &mut S)
    requires
        old(state).inv(),
        !old(state).done(),
    ensures
        final(state).inv(),
{
    let mut rounds_left: u64 = u64::MAX;
    loop
        invariant_except_break
            !state.done(),
        invariant
            state.inv(),
        ensures
            state.inv(),
        decreases rounds_left,
    {
        if rounds_left == 0 {
            break;
        }
        rounds_left = rounds_left - 1;

        let now = clock_now_ms();
        if deadline_ms < now {
            break;
        }
        let remaining_ms = deadline_ms - now;
        if state.step(remaining_ms) {
            break;
        }
    }
}

} // verus!
