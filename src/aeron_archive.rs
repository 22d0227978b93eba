//! The client session: its ids and its lifecycle, and what closing it entails.

use crate::context::Context;
use vstd::prelude::*;

verus! {

/// The value of an id that is not known yet.
pub const NULL_VALUE: i64 = -1;

/// One piece of work that closing a session asks for, in the order given.
#[derive(Clone, Copy, Debug, PartialEq, Eq, Structural)]
pub enum CloseStep {
    /// Tell the archive, best effort, that this control session ends.
    SendCloseSession(i64),
    /// Close the request publication.
    ClosePublication,
    /// Close the response subscription.
    CloseSubscription,
    /// Close the context, last.
    CloseContext,
}

/// What closing an open session asks for: a close-session message while the
/// publication is connected; the publication and subscription unless the context
/// owns the transport client (closing the client closes them); the context last.
pub open spec fn close_plan(control_session_id: i64, publication_connected: bool, owns_aeron_client: bool) -> Seq<CloseStep> {
    (if publication_connected {
        seq![CloseStep::SendCloseSession(control_session_id)]
    } else {
        Seq::empty()
    }) + (if !owns_aeron_client {
        seq![CloseStep::ClosePublication, CloseStep::CloseSubscription]
    } else {
        Seq::empty()
    }) + seq![CloseStep::CloseContext]
}

/// Whether a session is closed after a close, and what that close asked for:
/// nothing once it was closed already.
pub open spec fn close_transition(
    is_closed: bool,
    control_session_id: i64,
    publication_connected: bool,
    owns_aeron_client: bool,
) -> (bool, Seq<CloseStep>) {
    if is_closed {
        (true, Seq::empty())
    } else {
        (true, close_plan(control_session_id, publication_connected, owns_aeron_client))
    }
}

/// Closing twice does what closing once does: the second close asks for
/// nothing, whether or not the publication is connected by then.
pub proof fn lemma_close_is_idempotent(
    is_closed: bool,
    control_session_id: i64,
    first_connected: bool,
    second_connected: bool,
    owns_aeron_client: bool,
)
    ensures
        ({
            let (closed_once, first) = close_transition(is_closed, control_session_id, first_connected, owns_aeron_client);
            let (closed_twice, second) = close_transition(closed_once, control_session_id, second_connected, owns_aeron_client);
            &&& closed_once && closed_twice
            &&& second == Seq::<CloseStep>::empty()
            &&& !is_closed ==> first == close_plan(control_session_id, first_connected, owns_aeron_client)
        }),
{
}

/// Whether `n` is a positive power of two, as term and segment lengths are.
pub open spec fn is_power_of_two(n: int) -> bool {
    exists|k: nat| #[trigger] vstd::arithmetic::power2::pow2(k) == n
}

/// A session with the archive.
pub struct AeronArchive {
    is_closed: bool,
    last_correlation_id: i64,
    control_session_id: i64,
    message_timeout_ns: i64,
    context: Context,
}

impl AeronArchive {
    pub closed spec fn is_closed_spec(&self) -> bool {
        self.is_closed
    }

    pub closed spec fn control_session_id_spec(&self) -> i64 {
        self.control_session_id
    }

    pub closed spec fn owns_aeron_client_spec(&self) -> bool {
        self.context.owns_aeron_client
    }

    pub closed spec fn message_timeout_ns_spec(&self) -> i64 {
        self.message_timeout_ns
    }

    pub closed spec fn context_spec(&self) -> Context {
        self.context
    }

    pub closed spec fn last_correlation_id_spec(&self) -> i64 {
        self.last_correlation_id
    }

    pub fn new(control_session_id: i64, message_timeout_ns: i64, context: Context) -> (r: Self)
        ensures
            !r.is_closed_spec(),
            r.control_session_id_spec() == control_session_id,
            r.owns_aeron_client_spec() == context.owns_aeron_client,
            r.message_timeout_ns_spec() == message_timeout_ns,
            r.context_spec() == context,
            r.last_correlation_id_spec() == NULL_VALUE,
    {
        AeronArchive {
            is_closed: false,
            last_correlation_id: NULL_VALUE,
            control_session_id,
            message_timeout_ns,
            context,
        }
    }

    pub fn is_closed(&self) -> (r: bool)
        ensures
            r == self.is_closed_spec(),
    {
        self.is_closed
    }

    pub fn control_session_id(&self) -> (r: i64)
        ensures
            r == self.control_session_id_spec(),
    {
        self.control_session_id
    }

    pub fn message_timeout_ns(&self) -> (r: i64)
        ensures
            r == self.message_timeout_ns_spec(),
    {
        self.message_timeout_ns
    }

    pub fn context(&self) -> (r: &Context)
        ensures
            *r == self.context_spec(),
    {
        &self.context
    }

    /// Closes the session: the steps the caller must carry out, in order,
    /// reporting their failures through `close_failures`. A session that is
    /// closed already asks for nothing.
    pub fn close(&mut self, publication_connected: bool) -> (steps: Vec<CloseStep>)
        ensures
            ({
                let (closed, plan) = close_transition(
                    old(self).is_closed_spec(),
                    old(self).control_session_id_spec(),
                    publication_connected,
                    old(self).owns_aeron_client_spec(),
                );
                &&& final(self).is_closed_spec() == closed
                &&& steps@ == plan
            }),
            final(self).control_session_id_spec() == old(self).control_session_id_spec(),
            final(self).owns_aeron_client_spec() == old(self).owns_aeron_client_spec(),
            final(self).message_timeout_ns_spec() == old(self).message_timeout_ns_spec(),
    {
        let mut steps: Vec<CloseStep> = Vec::new();
        if self.is_closed {
            return steps;
        }
        self.is_closed = true;
        if publication_connected {
            steps.push(CloseStep::SendCloseSession(self.control_session_id));
        }
        if !self.context.owns_aeron_client {
            steps.push(CloseStep::ClosePublication);
            steps.push(CloseStep::CloseSubscription);
        }
        steps.push(CloseStep::CloseContext);
        proof {
            assert(steps@ =~= close_plan(self.control_session_id, publication_connected, self.context.owns_aeron_client));
        }
        steps
    }

    /// The start of the segment file that holds `position` of a recording that
    /// started at `start_position`: segments are counted from the start of the
    /// term in which the recording started. Both lengths are powers of two, so
    /// each remainder is the low bits of the position.
    pub fn segment_file_base_position(
        start_position: i64,
        position: i64,
        term_buffer_length: i32,
        segment_file_length: i32,
    ) -> (r: i64)
        requires
            0 <= start_position <= position,
            term_buffer_length > 0 && is_power_of_two(term_buffer_length as int),
            segment_file_length > 0 && is_power_of_two(segment_file_length as int),
        ensures
            ({
                let base = start_position as int - start_position as int % (term_buffer_length as int);
                let from_base = position as int - base;
                r == base + from_base - from_base % (segment_file_length as int)
            }),
    {
        let t = term_buffer_length as i64;
        assert(0 <= start_position % t <= start_position) by (nonlinear_arith)
            requires
                start_position >= 0,
                t > 0,
        ;
        let start_term_base_position = start_position - start_position % t;
        let length_from_base_position = position - start_term_base_position;
        let f = segment_file_length as i64;
        assert(0 <= length_from_base_position % f <= length_from_base_position) by (nonlinear_arith)
            requires
                length_from_base_position >= 0,
                f > 0,
        ;
        let segments = length_from_base_position - length_from_base_position % f;
        start_term_base_position + segments
    }
}

/// The failures met while carrying out close steps, in order, and the one to
/// hand back to the caller: the first.
pub fn close_failures(outcomes: &[(CloseStep, bool)]) -> (r: (Vec<CloseStep>, Option<CloseStep>))
    ensures
        r.0@ == failed_steps(outcomes@),
        r.1 == (if failed_steps(outcomes@).len() > 0 {
            Some(failed_steps(outcomes@)[0])
        } else {
            None
        }),
{
    let mut failed: Vec<CloseStep> = Vec::new();
    let mut i: usize = 0;
    while i < outcomes.len()
        invariant
            i <= outcomes@.len(),
            failed@ == failed_steps(outcomes@.subrange(0, i as int)),
        decreases outcomes@.len() - i,
    {
        let (step, succeeded) = outcomes[i];
        if !succeeded {
            failed.push(step);
        }
        proof {
            assert(outcomes@.subrange(0, i + 1).drop_last() =~= outcomes@.subrange(0, i as int));
        }
        i = i + 1;
    }
    assert(outcomes@.subrange(0, outcomes@.len() as int) =~= outcomes@);
    let first = if failed.len() > 0 {
        Some(failed[0])
    } else {
        None
    };
    (failed, first)
}

/// The steps that failed, in order.
pub open spec fn failed_steps(outcomes: Seq<(CloseStep, bool)>) -> Seq<CloseStep>
    decreases outcomes.len(),
{
    if outcomes.len() == 0 {
        Seq::empty()
    } else {
        let rest = failed_steps(outcomes.drop_last());
        if outcomes.last().1 {
            rest
        } else {
            rest.push(outcomes.last().0)
        }
    }
}

} // verus!
