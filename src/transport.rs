//! What the client needs from the transport and its surroundings, and the rules
//! for retrying a send.

use crate::fragment_assembler::ControlledFragmentHandler;
use vstd::prelude::*;

verus! {

/// The publication is not connected to a subscriber.
pub const NOT_CONNECTED: i64 = -1;

/// The send was refused for now; it may be tried again.
pub const BACK_PRESSURED: i64 = -2;

/// The transport was busy with its own work; the send may be tried again.
pub const ADMIN_ACTION: i64 = -3;

/// The publication is closed.
pub const CLOSED: i64 = -4;

/// The publication has reached its largest position.
pub const MAX_POSITION_EXCEEDED: i64 = -5;

/// A send bound by a deadline gives up after this many attempts at the latest,
/// so that it ends even with a clock that stands still.
pub const MAX_DEADLINE_ATTEMPTS: u64 = 0xffff_ffff_ffff_ffff;

/// Where messages are sent.
pub trait Publication {
    /// Sends `length` bytes of `buffer` from `offset`: a positive position when sent,
    /// else one of the negative codes of this module.
    fn offer(&mut self, buffer: &[u8], offset: usize, length: usize) -> i64
        requires
            offset + length <= buffer@.len(),
    ;

    fn is_connected(&self) -> bool;
}

/// Where messages arrive, as fragments.
pub trait Subscription {
    /// Hands up to `fragment_limit` fragments to `handler`, as long as it goes on;
    /// how many it handed over.
    fn controlled_poll<H: ControlledFragmentHandler>(&mut self, handler: &mut H, fragment_limit: i32) -> i32;
}

/// What to do between attempts that made no progress.
pub trait IdleStrategy {
    fn idle(&mut self, work_count: i32);

    fn reset(&mut self);
}

/// A monotonic clock in nanoseconds.
pub trait Clock {
    fn nano_time(&mut self) -> u64;
}

/// Work run on the caller's thread while it waits, in place of a separate agent thread.
pub trait AgentInvoker {
    fn invoke(&mut self) -> i32;
}

/// Has no work to run.
pub struct NoAgentInvoker;

impl AgentInvoker for NoAgentInvoker {
    fn invoke(&mut self) -> i32 {
        0
    }
}

/// Retries at once, without pausing.
pub struct BusySpinIdleStrategy;

impl IdleStrategy for BusySpinIdleStrategy {
    fn idle(&mut self, _work_count: i32) {
    }

    fn reset(&mut self) {
    }
}

/// The send went out.
pub open spec fn is_sent(result: i64) -> bool {
    result > 0
}

/// A failure that no retry can mend, for a bounded number of attempts.
pub open spec fn is_fatal(result: i64) -> bool {
    result == NOT_CONNECTED || result == CLOSED || result == MAX_POSITION_EXCEEDED
}

/// A failure that no retry can mend, while waiting for a deadline: the
/// publication may still connect, so only a closed one or a full one ends the wait.
pub open spec fn is_fatal_before_deadline(result: i64) -> bool {
    result == CLOSED || result == MAX_POSITION_EXCEEDED
}

/// The attempts of one bounded send: every attempt but the last failed in a way
/// worth retrying, and the last went out, failed for good, or used up the
/// `retry_attempts` allowed (at least one attempt is always made).
pub open spec fn bounded_attempts(results: Seq<i64>, retry_attempts: int) -> bool {
    let allowed = if retry_attempts < 1 {
        1
    } else {
        retry_attempts
    };
    &&& 1 <= results.len() <= allowed
    &&& forall|i: int| 0 <= i < results.len() - 1 ==> !is_sent(#[trigger] results[i]) && !is_fatal(results[i])
    &&& {
        let last = results.last();
        is_sent(last) || is_fatal(last) || results.len() == allowed
    }
}

/// The attempts of one send bound by a deadline: each attempt's result with the
/// clock read after it. Every attempt but the last failed in a way worth
/// retrying, before the deadline; the last went out, failed for good, or found
/// the deadline passed (or was the last one allowed).
pub open spec fn deadline_attempts(attempts: Seq<(i64, u64)>, deadline: u64) -> bool {
    &&& 1 <= attempts.len()
    &&& forall|i: int|
        0 <= i < attempts.len() - 1 ==> {
            &&& !is_sent((#[trigger] attempts[i]).0)
            &&& !is_fatal_before_deadline(attempts[i].0)
            &&& attempts[i].1 <= deadline
        }
    &&& {
        let last = attempts.last();
        is_sent(last.0) || is_fatal_before_deadline(last.0) || last.1 > deadline
            || attempts.len() == MAX_DEADLINE_ATTEMPTS
    }
}

/// A transport that always pushes back is tried exactly as often as allowed.
pub proof fn lemma_back_pressure_uses_every_attempt(results: Seq<i64>, retry_attempts: int)
    requires
        retry_attempts >= 1,
        bounded_attempts(results, retry_attempts),
        forall|i: int| 0 <= i < results.len() ==> #[trigger] results[i] == BACK_PRESSURED,
    ensures
        results.len() == retry_attempts,
        !is_sent(results.last()),
{
}

/// With a transport that always pushes back, a send bound by a deadline gives up
/// at the first attempt after which the clock is past the deadline, however many
/// attempts that takes, and not before.
pub proof fn lemma_back_pressure_stops_at_deadline(attempts: Seq<(i64, u64)>, deadline: u64)
    requires
        deadline_attempts(attempts, deadline),
        forall|i: int| 0 <= i < attempts.len() ==> (#[trigger] attempts[i]).0 == BACK_PRESSURED,
        attempts.len() < MAX_DEADLINE_ATTEMPTS,
    ensures
        attempts.last().1 > deadline,
        forall|i: int| 0 <= i < attempts.len() - 1 ==> (#[trigger] attempts[i]).1 <= deadline,
        !is_sent(attempts.last().0),
{
}

} // verus!
