//! The decisions of the server's accept loop and of its shutdown. The loop
//! itself, the socket, the worker pool and the shared phase are the
//! caller's: it performs each decided action and reports what happened.

use vstd::prelude::*;

verus! {

/// How long, in milliseconds, the accept loop pauses when no connection is pending.
pub const POLL_INTERVAL_MS: u64 = 10;

/// What one non-blocking accept on the listener gave.
#[derive(PartialEq, Eq, Structural, Clone, Copy, Debug)]
pub enum AcceptOutcome {
    /// A connection was accepted.
    Accepted,
    /// No connection is pending.
    WouldBlock,
    /// The accept failed in another way.
    Failed,
}

/// What the accept loop does next. Each of them keeps the loop going: only a
/// stop request ends it.
#[derive(PartialEq, Eq, Structural, Clone, Copy, Debug)]
pub enum LoopStep {
    /// Hand the accepted connection to the worker pool, without waiting for a free worker.
    Dispatch,
    /// Sleep this many milliseconds before polling again.
    Pause(u64),
    /// Log the failure and poll again.
    Report,
}

/// Where a server is in its life: built, accepting, or stopped for good.
#[derive(PartialEq, Eq, Structural, Clone, Copy, Debug)]
pub enum Phase {
    /// Built, and `run` not yet called.
    Created,
    /// The accept loop runs.
    Running,
    /// Stopped; it cannot run again.
    Stopped,
}

/// What a stop request does.
#[derive(PartialEq, Eq, Structural, Clone, Copy, Debug)]
pub enum StopAction {
    /// The server is already stopped: nothing to do.
    Nothing,
    /// Wait until the pool has run all queued and running work.
    Drain,
}

/// The step that follows an accept with this outcome.
pub open spec fn step_after(outcome: AcceptOutcome) -> LoopStep {
    match outcome {
        AcceptOutcome::Accepted => LoopStep::Dispatch,
        AcceptOutcome::WouldBlock => LoopStep::Pause(POLL_INTERVAL_MS),
        AcceptOutcome::Failed => LoopStep::Report,
    }
}

/// The phase after a request to run, and whether the accept loop starts.
pub open spec fn start_transition(phase: Phase) -> (Phase, bool) {
    match phase {
        Phase::Created => (Phase::Running, true),
        _ => (phase, false),
    }
}

/// The phase after a stop request, and what the request does.
pub open spec fn stop_transition(phase: Phase) -> (Phase, StopAction) {
    match phase {
        Phase::Stopped => (Phase::Stopped, StopAction::Nothing),
        _ => (Phase::Stopped, StopAction::Drain),
    }
}

/// Decides the accept loop's next step from the outcome of one accept.
pub fn next_step(outcome: AcceptOutcome) -> (s: LoopStep)
    ensures
        s == step_after(outcome),
{
    match outcome {
        AcceptOutcome::Accepted => LoopStep::Dispatch,
        AcceptOutcome::WouldBlock => LoopStep::Pause(POLL_INTERVAL_MS),
        AcceptOutcome::Failed => LoopStep::Report,
    }
}

/// Decides a request to run: only a server that was never run nor stopped starts.
pub fn start_request(phase: Phase) -> (r: (Phase, bool))
    ensures
        r == start_transition(phase),
{
    match phase {
        Phase::Created => (Phase::Running, true),
        _ => (phase, false),
    }
}

/// Whether the accept loop polls again: exactly while the server is running.
pub fn accepting(phase: Phase) -> (r: bool)
    ensures
        r == (phase == Phase::Running),
{
    match phase {
        Phase::Running => true,
        _ => false,
    }
}

/// Decides a stop request: any server not yet stopped becomes stopped and its
/// pool is drained; a stopped one is left as it is.
pub fn stop_request(phase: Phase) -> (r: (Phase, StopAction))
    ensures
        r == stop_transition(phase),
{
    match phase {
        Phase::Stopped => (Phase::Stopped, StopAction::Nothing),
        _ => (Phase::Stopped, StopAction::Drain),
    }
}

/// Whether a worker pool of this size can be built: it needs at least one worker.
pub fn worker_count_ok(num_workers: usize) -> (r: bool)
    ensures
        r == (num_workers >= 1),
{
    num_workers >= 1
}

/// After a stop request the server is stopped: the accept loop's condition is
/// false, a request to run is refused, and a second stop request does nothing
/// and leaves the phase as it is.
pub proof fn lemma_stop_is_final(phase: Phase)
    ensures
        stop_transition(phase).0 == Phase::Stopped,
        stop_transition(phase).0 != Phase::Running,
        !start_transition(stop_transition(phase).0).1,
        start_transition(stop_transition(phase).0).0 == Phase::Stopped,
        stop_transition(stop_transition(phase).0) == (Phase::Stopped, StopAction::Nothing),
{
}

/// Only a newly built server starts; starting it makes it run.
pub proof fn lemma_start_only_once(phase: Phase)
    ensures
        start_transition(phase).1 <==> phase == Phase::Created,
        start_transition(phase).1 ==> start_transition(start_transition(phase).0) == (
            Phase::Running,
            false,
        ),
{
}

} // verus!
