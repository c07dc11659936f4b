//! The runtime's event loop policy.
//!
//! One cooperative, single-threaded scheduler runs a fixed set of tasks to
//! quiescence, then makes one non-blocking pass of the network interface's
//! poll, which drives the Ethernet buffer exchange and the protocol state
//! machines. The loop never exits: a poll that found nothing to do is an
//! expected outcome and is swallowed; any other poll error is logged and
//! the loop goes on. That classification is the loop's one decision, and it
//! is verified here; the platform layer owns the actual scheduler and poll.

use vstd::prelude::*;

verus! {

/// Outcome of one network poll pass.
#[derive(Clone, Copy, PartialEq, Eq, Structural, Debug)]
pub enum PollError {
    /// Nothing left to receive or transmit in this pass.
    Exhausted,
    /// A frame of an unhandled type reached the interface.
    Unrecognized,
    /// A malformed or truncated frame was dropped.
    Malformed,
    /// A frame failed its checksum.
    Checksum,
    /// The stack dropped a packet for want of resources.
    Dropped,
}

/// The transient outcomes: expected under polling, retried silently on the
/// next loop iteration.
pub open spec fn is_transient(e: PollError) -> bool {
    e is Exhausted || e is Unrecognized
}

/// Whether one poll outcome is worth a log line: exactly the errors that are
/// not transient. The loop continues either way.
pub fn should_log(r: &Result<(), PollError>) -> (b: bool)
    ensures
        b <==> (r matches Err(e) && !is_transient(*e)),
{
    match r {
        Ok(_) => false,
        Err(PollError::Exhausted) => false,
        Err(PollError::Unrecognized) => false,
        Err(_) => true,
    }
}

} // verus!
