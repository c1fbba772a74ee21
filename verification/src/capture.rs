//! The capture loop's verified decisions: when to request a chunk, when to
//! idle, and when the pipeline ends.

use vstd::prelude::*;

verus! {

/// What one bounded-wait request for the next chunk produced.
#[derive(Clone, Copy, PartialEq, Eq, Structural, Debug)]
pub enum PollOutcome {
    /// A chunk is available.
    Chunk,
    /// The bounded wait elapsed with no chunk.
    TimedOut,
    /// The upstream source terminated.
    Ended,
}

/// What the capture loop does next.
#[derive(Clone, Copy, PartialEq, Eq, Structural, Debug)]
pub enum CaptureAction {
    /// Paused: sleep for the coarse polling interval and request nothing.
    Pause,
    /// Forward the available chunk for transcription, unconditionally: a
    /// chunk in flight is never aborted, whatever the flag does afterwards.
    Forward,
    /// Keep waiting: re-check the flag after the short bounded wait.
    Idle,
    /// The source ended: report the terminal state and exit the loop.
    Finish,
}

/// The capture loop's decision from the listening flag and the poll outcome.
/// While the flag is off the loop only pauses, so no chunk is requested
/// within one polling interval of the flag going false.
pub open spec fn capture_step(listening: bool, poll: PollOutcome) -> CaptureAction {
    if !listening {
        CaptureAction::Pause
    } else {
        match poll {
            PollOutcome::Chunk => CaptureAction::Forward,
            PollOutcome::TimedOut => CaptureAction::Idle,
            PollOutcome::Ended => CaptureAction::Finish,
        }
    }
}

/// Decides one iteration of the capture loop.
pub fn capture_decision(listening: bool, poll: PollOutcome) -> (a: CaptureAction)
    ensures
        a == capture_step(listening, poll),
{
    if !listening {
        CaptureAction::Pause
    } else {
        match poll {
            PollOutcome::Chunk => CaptureAction::Forward,
            PollOutcome::TimedOut => CaptureAction::Idle,
            PollOutcome::Ended => CaptureAction::Finish,
        }
    }
}

/// Law: a false listening flag pauses the loop for every poll outcome, so no
/// new chunk is requested; and a chunk that arrived while listening is always
/// forwarded, so a unit already in flight is unaffected by a later toggle.
pub proof fn lemma_pause_semantics(poll: PollOutcome)
    ensures
        capture_step(false, poll) is Pause,
        capture_step(true, PollOutcome::Chunk) is Forward,
{
}

} // verus!
