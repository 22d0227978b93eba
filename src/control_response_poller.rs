//! Polls the control response subscription and keeps what the last whole
//! message said until the next poll.

use crate::codec::{CHALLENGE_TEMPLATE_ID, CONTROL_RESPONSE_TEMPLATE_ID, RECORDING_SIGNAL_EVENT_TEMPLATE_ID};
use crate::control_message::{decode_control_message, is_decoded_as, rejection_of, ControlMessage, Rejection};
use crate::fragment_assembler::{Action, ControlledFragmentAssembler, ControlledFragmentHandler, Header};
use crate::transport::Subscription;
use vstd::prelude::*;

verus! {

/// The value of an id or position that no message has set.
pub const NULL_VALUE: i64 = -1;

/// Fragments a poll hands over by default.
pub const FRAGMENT_LIMIT: i32 = 10;

/// What the last control response, challenge or recording signal said.
pub struct ControlResponseState {
    pub control_session_id: i64,
    pub correlation_id: i64,
    pub relevant_id: i64,
    pub template_id: i32,
    pub version: i32,
    pub code: i32,
    pub error_message: Option<Vec<u8>>,
    pub recording_id: i64,
    pub subscription_id: i64,
    pub position: i64,
    pub recording_signal: Option<i32>,
    pub encoded_challenge: Option<Vec<u8>>,
    pub is_poll_complete: bool,
    /// The last message of this poll that was passed over as unknown or malformed.
    pub last_rejection: Option<Rejection>,
}

impl ControlResponseState {
    /// Nothing decoded yet.
    pub open spec fn is_cleared(&self) -> bool {
        &&& self.control_session_id == NULL_VALUE
        &&& self.correlation_id == NULL_VALUE
        &&& self.relevant_id == NULL_VALUE
        &&& self.template_id == NULL_VALUE as i32
        &&& self.version == 0
        &&& self.code == NULL_VALUE as i32
        &&& self.error_message is None
        &&& self.recording_id == NULL_VALUE
        &&& self.subscription_id == NULL_VALUE
        &&& self.position == NULL_VALUE
        &&& self.recording_signal is None
        &&& self.encoded_challenge is None
        &&& !self.is_poll_complete
        &&& self.last_rejection is None
    }

    /// Whether this state holds exactly what message `m` said.
    pub open spec fn holds(&self, m: ControlMessage) -> bool {
        match m {
            ControlMessage::Response(r) => {
                &&& self.is_poll_complete
                &&& self.template_id == CONTROL_RESPONSE_TEMPLATE_ID as i32
                &&& self.control_session_id == r.control_session_id
                &&& self.correlation_id == r.correlation_id
                &&& self.relevant_id == r.relevant_id
                &&& self.code == r.code
                &&& self.version == r.version
                &&& self.error_message matches Some(e) && e@ == r.error_message@
            },
            ControlMessage::Challenge(c) => {
                &&& self.is_poll_complete
                &&& self.template_id == CHALLENGE_TEMPLATE_ID as i32
                &&& self.control_session_id == c.control_session_id
                &&& self.correlation_id == c.correlation_id
                &&& self.version == c.version
                &&& self.encoded_challenge matches Some(e) && e@ == c.encoded_challenge@
            },
            ControlMessage::Signal(s) => {
                &&& self.is_poll_complete
                &&& self.template_id == RECORDING_SIGNAL_EVENT_TEMPLATE_ID as i32
                &&& self.control_session_id == s.control_session_id
                &&& self.correlation_id == s.correlation_id
                &&& self.recording_id == s.recording_id
                &&& self.subscription_id == s.subscription_id
                &&& self.position == s.position
                &&& self.recording_signal == Some(s.signal)
            },
            _ => false,
        }
    }

    pub open spec fn is_kept(m: ControlMessage) -> bool {
        m is Response || m is Challenge || m is Signal
    }

    pub fn new() -> (r: Self)
        ensures
            r.is_cleared(),
    {
        ControlResponseState {
            control_session_id: NULL_VALUE,
            correlation_id: NULL_VALUE,
            relevant_id: NULL_VALUE,
            template_id: NULL_VALUE as i32,
            version: 0,
            code: NULL_VALUE as i32,
            error_message: None,
            recording_id: NULL_VALUE,
            subscription_id: NULL_VALUE,
            position: NULL_VALUE,
            recording_signal: None,
            encoded_challenge: None,
            is_poll_complete: false,
            last_rejection: None,
        }
    }

    /// Forgets the last message once it has been taken, ready for the next poll.
    pub fn reset_if_complete(&mut self)
        ensures
            old(self).is_poll_complete ==> final(self).is_cleared(),
            !old(self).is_poll_complete ==> *final(self) == *old(self),
    {
        if self.is_poll_complete {
            *self = Self::new();
        }
    }

    /// Takes one whole message. A control response, a challenge or a recording
    /// signal is kept and ends the poll; any other message is passed over, and
    /// one that is unknown or malformed is recorded as rejected. While
    /// a kept message has not been taken, the message is refused, to come again.
    pub fn on_message(&mut self, data: &[u8]) -> (action: Action)
        ensures
            old(self).is_poll_complete ==> action == Action::Abort && *final(self) == *old(self),
            !old(self).is_poll_complete ==> exists|m: ControlMessage| #[trigger] is_decoded_as(m, data@) && {
                if Self::is_kept(m) {
                    action == Action::Break && final(self).holds(m)
                } else {
                    &&& action == Action::Continue
                    &&& *final(self) == (ControlResponseState {
                        last_rejection: match rejection_of(m) {
                            Some(r) => Some(r),
                            None => old(self).last_rejection,
                        },
                        ..*old(self)
                    })
                }
            },
    {
        if self.is_poll_complete {
            return Action::Abort;
        }
        let message = decode_control_message(data);
        match message {
            ControlMessage::Response(r) => {
                self.template_id = CONTROL_RESPONSE_TEMPLATE_ID as i32;
                self.control_session_id = r.control_session_id;
                self.correlation_id = r.correlation_id;
                self.relevant_id = r.relevant_id;
                self.code = r.code;
                self.version = r.version;
                self.error_message = Some(r.error_message);
                self.is_poll_complete = true;
                Action::Break
            },
            ControlMessage::Challenge(c) => {
                self.template_id = CHALLENGE_TEMPLATE_ID as i32;
                self.control_session_id = c.control_session_id;
                self.correlation_id = c.correlation_id;
                self.relevant_id = NULL_VALUE;
                self.version = c.version;
                self.encoded_challenge = Some(c.encoded_challenge);
                self.is_poll_complete = true;
                Action::Break
            },
            ControlMessage::Signal(s) => {
                self.template_id = RECORDING_SIGNAL_EVENT_TEMPLATE_ID as i32;
                self.control_session_id = s.control_session_id;
                self.correlation_id = s.correlation_id;
                self.recording_id = s.recording_id;
                self.subscription_id = s.subscription_id;
                self.position = s.position;
                self.recording_signal = Some(s.signal);
                self.is_poll_complete = true;
                Action::Break
            },
            ControlMessage::Unknown(t) => {
                self.last_rejection = Some(Rejection::UnknownTemplate(t));
                Action::Continue
            },
            ControlMessage::Malformed => {
                self.last_rejection = Some(Rejection::Malformed);
                Action::Continue
            },
            _ => Action::Continue,
        }
    }
}

impl ControlledFragmentHandler for ControlResponseState {
    fn on_fragment(&mut self, buffer: &[u8], offset: usize, length: usize, header: &Header) -> Action {
        assert(buffer@.len() == buffer.len());
        self.on_message(&buffer[offset..offset + length])
    }
}

/// Polls a subscription for control responses.
pub struct ControlResponsePoller<S: Subscription> {
    fragment_limit: i32,
    subscription: S,
    fragment_assembler: ControlledFragmentAssembler<ControlResponseState>,
}

impl<S: Subscription> ControlResponsePoller<S> {
    pub closed spec fn state_spec(&self) -> ControlResponseState {
        self.fragment_assembler.delegate_spec()
    }

    pub closed spec fn fragment_limit_spec(&self) -> i32 {
        self.fragment_limit
    }

    pub fn fragment_limit(&self) -> (r: i32)
        ensures
            r == self.fragment_limit_spec(),
    {
        self.fragment_limit
    }

    pub fn new(subscription: S) -> (r: Self)
        ensures
            r.state_spec().is_cleared(),
            r.fragment_limit_spec() == FRAGMENT_LIMIT,
            r.subscription_spec() == subscription,
    {
        Self::with_fragment_limit(subscription, FRAGMENT_LIMIT)
    }

    pub fn with_fragment_limit(subscription: S, fragment_limit: i32) -> (r: Self)
        ensures
            r.state_spec().is_cleared(),
            r.fragment_limit_spec() == fragment_limit,
            r.subscription_spec() == subscription,
    {
        let assembler = ControlledFragmentAssembler::new(ControlResponseState::new());
        ControlResponsePoller { fragment_limit, subscription, fragment_assembler: assembler }
    }

    pub closed spec fn subscription_spec(&self) -> S {
        self.subscription
    }

    pub fn subscription(&self) -> (r: &S)
        ensures
            *r == self.subscription_spec(),
    {
        &self.subscription
    }

    /// Forgets the message of the last poll if it was whole, then hands up to
    /// `fragment_limit` fragments to the assembler; how many it handed over.
    pub fn poll(&mut self) -> (r: i32)
        ensures
            final(self).fragment_limit_spec() == old(self).fragment_limit_spec(),
    {
        self.fragment_assembler.delegate_mut().reset_if_complete();
        self.subscription.controlled_poll(&mut self.fragment_assembler, self.fragment_limit)
    }

    /// What the last whole message said.
    pub fn state(&self) -> (r: &ControlResponseState)
        ensures
            *r == self.state_spec(),
    {
        self.fragment_assembler.delegate()
    }

    pub fn control_session_id(&self) -> (r: i64)
        ensures
            r == self.state_spec().control_session_id,
    {
        self.fragment_assembler.delegate().control_session_id
    }

    pub fn correlation_id(&self) -> (r: i64)
        ensures
            r == self.state_spec().correlation_id,
    {
        self.fragment_assembler.delegate().correlation_id
    }

    pub fn relevant_id(&self) -> (r: i64)
        ensures
            r == self.state_spec().relevant_id,
    {
        self.fragment_assembler.delegate().relevant_id
    }

    pub fn template_id(&self) -> (r: i32)
        ensures
            r == self.state_spec().template_id,
    {
        self.fragment_assembler.delegate().template_id
    }

    pub fn code(&self) -> (r: i32)
        ensures
            r == self.state_spec().code,
    {
        self.fragment_assembler.delegate().code
    }

    pub fn is_poll_complete(&self) -> (r: bool)
        ensures
            r == self.state_spec().is_poll_complete,
    {
        self.fragment_assembler.delegate().is_poll_complete
    }
}

} // verus!
