//! Polls for the recording descriptors that answer one listing request and hands
//! each to a consumer until the expected count or the end of the list.

use crate::control_message::{
    decode_control_message, is_decoded_as, ControlMessage, ControlResponse, RecordingDescriptor,
    RecordingSignalEvent, Rejection,
};
use crate::fragment_assembler::{Action, ControlledFragmentAssembler, ControlledFragmentHandler, Header};
use crate::transport::Subscription;
use vstd::prelude::*;

verus! {

/// Response code: the request failed.
pub const CODE_ERROR: i32 = 1;

/// Response code: no such recording, which also ends a listing.
pub const CODE_RECORDING_UNKNOWN: i32 = 2;

/// Takes the descriptors of a listing.
pub trait RecordingDescriptorConsumer {
    fn on_recording_descriptor(&mut self, descriptor: &RecordingDescriptor);
}

/// Takes recording signals that arrive during a listing.
pub trait RecordingSignalConsumer {
    fn on_signal(&mut self, signal: &RecordingSignalEvent);
}

/// What one message asks to be handed on.
pub enum Dispatch {
    Nothing,
    Descriptor(RecordingDescriptor),
    Signal(RecordingSignalEvent),
    /// An error answering another request of this session.
    Error(ControlResponse),
    /// An error answering this listing, which ends it.
    Failed(ControlResponse),
    /// A message passed over as unknown or malformed, to be reported.
    Rejected(Rejection),
}

/// Where a listing stands.
pub struct RecordingDescriptorState {
    pub control_session_id: i64,
    pub correlation_id: i64,
    pub remaining_record_count: i32,
    pub is_dispatch_complete: bool,
}

/// The listing's state after message `m`, what to do, and what to hand on.
pub open spec fn descriptor_step(st: RecordingDescriptorState, m: ControlMessage) -> (RecordingDescriptorState, Action, Dispatch) {
    match m {
        ControlMessage::Response(r) => {
            if r.control_session_id != st.control_session_id {
                (st, Action::Continue, Dispatch::Nothing)
            } else if r.code == CODE_RECORDING_UNKNOWN && r.correlation_id == st.correlation_id {
                (RecordingDescriptorState { is_dispatch_complete: true, ..st }, Action::Break, Dispatch::Nothing)
            } else if r.code == CODE_ERROR && r.correlation_id == st.correlation_id {
                (RecordingDescriptorState { is_dispatch_complete: true, ..st }, Action::Break, Dispatch::Failed(r))
            } else if r.code == CODE_ERROR {
                (st, Action::Continue, Dispatch::Error(r))
            } else {
                (st, Action::Continue, Dispatch::Nothing)
            }
        },
        ControlMessage::Descriptor(d) => {
            if d.control_session_id != st.control_session_id || d.correlation_id != st.correlation_id {
                (st, Action::Continue, Dispatch::Nothing)
            } else {
                let remaining = if st.remaining_record_count > i32::MIN {
                    (st.remaining_record_count - 1) as i32
                } else {
                    st.remaining_record_count
                };
                if remaining == 0 {
                    (
                        RecordingDescriptorState { remaining_record_count: remaining, is_dispatch_complete: true, ..st },
                        Action::Break,
                        Dispatch::Descriptor(d),
                    )
                } else {
                    (
                        RecordingDescriptorState { remaining_record_count: remaining, ..st },
                        Action::Continue,
                        Dispatch::Descriptor(d),
                    )
                }
            }
        },
        ControlMessage::Signal(s) => {
            if s.control_session_id == st.control_session_id {
                (st, Action::Continue, Dispatch::Signal(s))
            } else {
                (st, Action::Continue, Dispatch::Nothing)
            }
        },
        ControlMessage::Unknown(t) => (st, Action::Continue, Dispatch::Rejected(Rejection::UnknownTemplate(t))),
        ControlMessage::Malformed => (st, Action::Continue, Dispatch::Rejected(Rejection::Malformed)),
        _ => (st, Action::Continue, Dispatch::Nothing),
    }
}

impl RecordingDescriptorState {
    /// Takes one whole message; once the listing is complete every message is
    /// refused, to come again for whoever polls next.
    pub fn on_message(&mut self, data: &[u8]) -> (r: (Action, Dispatch))
        ensures
            old(self).is_dispatch_complete ==> r.0 == Action::Abort && r.1 is Nothing && *final(self) == *old(self),
            !old(self).is_dispatch_complete ==> exists|m: ControlMessage| #[trigger] is_decoded_as(m, data@) && {
                let (st, action, dispatch) = descriptor_step(*old(self), m);
                &&& *final(self) == st
                &&& r.0 == action
                &&& r.1 == dispatch
            },
    {
        if self.is_dispatch_complete {
            return (Action::Abort, Dispatch::Nothing);
        }
        let message = decode_control_message(data);
        match message {
            ControlMessage::Response(r) => {
                if r.control_session_id != self.control_session_id {
                    (Action::Continue, Dispatch::Nothing)
                } else if r.code == CODE_RECORDING_UNKNOWN && r.correlation_id == self.correlation_id {
                    self.is_dispatch_complete = true;
                    (Action::Break, Dispatch::Nothing)
                } else if r.code == CODE_ERROR && r.correlation_id == self.correlation_id {
                    self.is_dispatch_complete = true;
                    (Action::Break, Dispatch::Failed(r))
                } else if r.code == CODE_ERROR {
                    (Action::Continue, Dispatch::Error(r))
                } else {
                    (Action::Continue, Dispatch::Nothing)
                }
            },
            ControlMessage::Descriptor(d) => {
                if d.control_session_id != self.control_session_id || d.correlation_id != self.correlation_id {
                    (Action::Continue, Dispatch::Nothing)
                } else {
                    if self.remaining_record_count > i32::MIN {
                        self.remaining_record_count = self.remaining_record_count - 1;
                    }
                    if self.remaining_record_count == 0 {
                        self.is_dispatch_complete = true;
                        (Action::Break, Dispatch::Descriptor(d))
                    } else {
                        (Action::Continue, Dispatch::Descriptor(d))
                    }
                }
            },
            ControlMessage::Signal(s) => {
                if s.control_session_id == self.control_session_id {
                    (Action::Continue, Dispatch::Signal(s))
                } else {
                    (Action::Continue, Dispatch::Nothing)
                }
            },
            ControlMessage::Unknown(t) => (Action::Continue, Dispatch::Rejected(Rejection::UnknownTemplate(t))),
            ControlMessage::Malformed => (Action::Continue, Dispatch::Rejected(Rejection::Malformed)),
            _ => (Action::Continue, Dispatch::Nothing),
        }
    }
}

/// Hands each message's descriptor or signal to the consumers.
pub struct DescriptorDispatcher<C: RecordingDescriptorConsumer, G: RecordingSignalConsumer> {
    pub state: RecordingDescriptorState,
    pub consumer: Option<C>,
    pub signal_consumer: G,
    /// The last error that answered another request of this session.
    pub last_error: Option<ControlResponse>,
    /// The error that ended the listing, if one did.
    pub failure: Option<ControlResponse>,
    /// The last message passed over as unknown or malformed.
    pub last_rejection: Option<Rejection>,
}

impl<C: RecordingDescriptorConsumer, G: RecordingSignalConsumer> ControlledFragmentHandler for DescriptorDispatcher<C, G> {
    fn on_fragment(&mut self, buffer: &[u8], offset: usize, length: usize, header: &Header) -> Action {
        assert(buffer@.len() == buffer.len());
        let (action, dispatch) = self.state.on_message(&buffer[offset..offset + length]);
        match dispatch {
            Dispatch::Nothing => {},
            Dispatch::Descriptor(d) => {
                if let Some(consumer) = &mut self.consumer {
                    consumer.on_recording_descriptor(&d);
                }
            },
            Dispatch::Signal(s) => self.signal_consumer.on_signal(&s),
            Dispatch::Error(r) => self.last_error = Some(r),
            Dispatch::Failed(r) => self.failure = Some(r),
            Dispatch::Rejected(r) => self.last_rejection = Some(r),
        }
        action
    }
}

/// Polls a subscription for the descriptors of one listing at a time.
pub struct RecordingDescriptorPoller<S: Subscription, C: RecordingDescriptorConsumer, G: RecordingSignalConsumer> {
    fragment_limit: i32,
    subscription: S,
    fragment_assembler: ControlledFragmentAssembler<DescriptorDispatcher<C, G>>,
}

impl<S: Subscription, C: RecordingDescriptorConsumer, G: RecordingSignalConsumer> RecordingDescriptorPoller<S, C, G> {
    pub closed spec fn state_spec(&self) -> RecordingDescriptorState {
        self.fragment_assembler.delegate_spec().state
    }

    pub closed spec fn fragment_limit_spec(&self) -> i32 {
        self.fragment_limit
    }

    pub closed spec fn subscription_spec(&self) -> S {
        self.subscription
    }

    /// The error that ended the listing, if one did.
    pub closed spec fn failure_spec(&self) -> Option<ControlResponse> {
        self.fragment_assembler.delegate_spec().failure
    }

    pub fn fragment_limit(&self) -> (r: i32)
        ensures
            r == self.fragment_limit_spec(),
    {
        self.fragment_limit
    }

    pub fn new(
        subscription: S,
        control_session_id: i64,
        fragment_limit: i32,
        recording_signal_consumer: G,
    ) -> (r: Self)
        ensures
            r.state_spec() == (RecordingDescriptorState {
                control_session_id,
                correlation_id: 0,
                remaining_record_count: 0,
                is_dispatch_complete: false,
            }),
            r.fragment_limit_spec() == fragment_limit,
            r.subscription_spec() == subscription,
            r.failure_spec() is None,
    {
        let dispatcher = DescriptorDispatcher {
            state: RecordingDescriptorState {
                control_session_id,
                correlation_id: 0,
                remaining_record_count: 0,
                is_dispatch_complete: false,
            },
            consumer: None,
            signal_consumer: recording_signal_consumer,
            last_error: None,
            failure: None,
            last_rejection: None,
        };
        RecordingDescriptorPoller {
            fragment_limit,
            subscription,
            fragment_assembler: ControlledFragmentAssembler::new(dispatcher),
        }
    }

    pub fn subscription(&self) -> (r: &S)
        ensures
            *r == self.subscription_spec(),
    {
        &self.subscription
    }

    /// Hands up to the fragment limit of fragments to the assembler unless the
    /// listing is complete; how many it handed over, or 0 once it is complete.
    pub fn poll(&mut self) -> (r: i32)
        ensures
            old(self).state_spec().is_dispatch_complete ==> r == 0
                && final(self).state_spec() == old(self).state_spec()
                && final(self).subscription_spec() == old(self).subscription_spec()
                && final(self).failure_spec() == old(self).failure_spec(),
            final(self).fragment_limit_spec() == old(self).fragment_limit_spec(),
            final(self).state_spec().is_dispatch_complete ==> r == 0,
    {
        if self.fragment_assembler.delegate().state.is_dispatch_complete {
            return 0;
        }
        let fragments_read = self.subscription.controlled_poll(&mut self.fragment_assembler, self.fragment_limit);
        if self.fragment_assembler.delegate().state.is_dispatch_complete {
            return 0;
        }
        fragments_read
    }

    pub fn control_session_id(&self) -> (r: i64)
        ensures
            r == self.state_spec().control_session_id,
    {
        self.fragment_assembler.delegate().state.control_session_id
    }

    pub fn is_dispatch_complete(&self) -> (r: bool)
        ensures
            r == self.state_spec().is_dispatch_complete,
    {
        self.fragment_assembler.delegate().state.is_dispatch_complete
    }

    pub fn remaining_record_count(&self) -> (r: i32)
        ensures
            r == self.state_spec().remaining_record_count,
    {
        self.fragment_assembler.delegate().state.remaining_record_count
    }

    /// The error that ended the listing, if one did.
    pub fn failure(&self) -> (r: &Option<ControlResponse>)
        ensures
            *r == self.failure_spec(),
    {
        &self.fragment_assembler.delegate().failure
    }

    /// Starts a new listing: its correlation id, how many descriptors to expect,
    /// and who takes them.
    pub fn reset(&mut self, correlation_id: i64, record_count: i32, consumer: C)
        ensures
            final(self).state_spec() == (RecordingDescriptorState {
                control_session_id: old(self).state_spec().control_session_id,
                correlation_id,
                remaining_record_count: record_count,
                is_dispatch_complete: false,
            }),
            final(self).failure_spec() is None,
            final(self).fragment_limit_spec() == old(self).fragment_limit_spec(),
            final(self).subscription_spec() == old(self).subscription_spec(),
    {
        let dispatcher = self.fragment_assembler.delegate_mut();
        dispatcher.state.correlation_id = correlation_id;
        dispatcher.state.remaining_record_count = record_count;
        dispatcher.state.is_dispatch_complete = false;
        dispatcher.consumer = Some(consumer);
        dispatcher.failure = None;
    }
}

} // verus!
