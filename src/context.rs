//! The client's configuration, fixed once concluded.

use crate::configuration::{
    CONTROL_CHANNEL_DEFAULT, CONTROL_MTU_LENGTH_DEFAULT, CONTROL_RESPONSE_CHANNEL_DEFAULT,
    CONTROL_RESPONSE_STREAM_ID_DEFAULT, CONTROL_STREAM_ID_DEFAULT, CONTROL_TERM_BUFFER_LENGTH_DEFAULT,
    CONTROL_TERM_BUFFER_SPARSE_DEFAULT, MESSAGE_TIMEOUT_DEFAULT_NS, RECORDING_EVENTS_CHANNEL_DEFAULT,
    RECORDING_EVENTS_STREAM_ID_DEFAULT,
};
use vstd::prelude::*;

verus! {

pub struct Context {
    pub is_concluded: bool,
    pub message_timeout_ns: i64,
    pub recording_events_channel: String,
    pub recording_events_stream_id: i32,
    pub control_request_channel: String,
    pub control_request_stream_id: i32,
    pub control_response_channel: String,
    pub control_response_stream_id: i32,
    pub control_term_buffer_sparse: bool,
    pub control_term_buffer_length: i32,
    pub control_mtu_length: i32,
    pub aeron_directory_name: String,
    /// Whether the caller supplied the transport client this context uses.
    pub has_aeron_client: bool,
    /// Whether this context made its transport client and so must close it.
    pub owns_aeron_client: bool,
}

impl Context {
    /// The defaults, with the transport client's directory at `aeron_directory_name`.
    pub fn new(aeron_directory_name: String) -> (r: Self)
        ensures
            !r.is_concluded,
            r.message_timeout_ns == MESSAGE_TIMEOUT_DEFAULT_NS,
            r.recording_events_channel@ == RECORDING_EVENTS_CHANNEL_DEFAULT@,
            r.recording_events_stream_id == RECORDING_EVENTS_STREAM_ID_DEFAULT,
            r.control_request_channel@ == CONTROL_CHANNEL_DEFAULT@,
            r.control_request_stream_id == CONTROL_STREAM_ID_DEFAULT,
            r.control_response_channel@ == CONTROL_RESPONSE_CHANNEL_DEFAULT@,
            r.control_response_stream_id == CONTROL_RESPONSE_STREAM_ID_DEFAULT,
            r.control_term_buffer_sparse == CONTROL_TERM_BUFFER_SPARSE_DEFAULT,
            r.control_term_buffer_length == CONTROL_TERM_BUFFER_LENGTH_DEFAULT,
            r.control_mtu_length == CONTROL_MTU_LENGTH_DEFAULT,
            r.aeron_directory_name == aeron_directory_name,
            !r.has_aeron_client,
            !r.owns_aeron_client,
    {
        Context {
            is_concluded: false,
            message_timeout_ns: MESSAGE_TIMEOUT_DEFAULT_NS,
            recording_events_channel: RECORDING_EVENTS_CHANNEL_DEFAULT.to_string(),
            recording_events_stream_id: RECORDING_EVENTS_STREAM_ID_DEFAULT,
            control_request_channel: CONTROL_CHANNEL_DEFAULT.to_string(),
            control_request_stream_id: CONTROL_STREAM_ID_DEFAULT,
            control_response_channel: CONTROL_RESPONSE_CHANNEL_DEFAULT.to_string(),
            control_response_stream_id: CONTROL_RESPONSE_STREAM_ID_DEFAULT,
            control_term_buffer_sparse: CONTROL_TERM_BUFFER_SPARSE_DEFAULT,
            control_term_buffer_length: CONTROL_TERM_BUFFER_LENGTH_DEFAULT,
            control_mtu_length: CONTROL_MTU_LENGTH_DEFAULT,
            aeron_directory_name,
            has_aeron_client: false,
            owns_aeron_client: false,
        }
    }

    /// Records that the caller supplies the transport client.
    pub fn set_aeron_client_supplied(&mut self)
        ensures
            final(self).has_aeron_client,
            !final(self).owns_aeron_client,
            final(self).is_concluded == old(self).is_concluded,
    {
        self.has_aeron_client = true;
        self.owns_aeron_client = false;
    }

    /// Fixes the configuration; whether the caller must now make a transport
    /// client, because none was supplied. Nothing is recorded of that client
    /// until `aeron_client_created` says it exists.
    pub fn conclude(&mut self) -> (make_client: bool)
        ensures
            make_client == !old(self).has_aeron_client,
            final(self).is_concluded,
            final(self).has_aeron_client == old(self).has_aeron_client,
            final(self).owns_aeron_client == old(self).owns_aeron_client,
            final(self).message_timeout_ns == old(self).message_timeout_ns,
    {
        self.is_concluded = true;
        !self.has_aeron_client
    }

    /// Records that the client `conclude` asked for was made: this context has
    /// it and owns it. A creation that failed is not recorded, so the context
    /// is left as it was.
    pub fn aeron_client_created(&mut self)
        ensures
            final(self).has_aeron_client,
            final(self).owns_aeron_client,
            final(self).is_concluded == old(self).is_concluded,
            final(self).message_timeout_ns == old(self).message_timeout_ns,
    {
        self.has_aeron_client = true;
        self.owns_aeron_client = true;
    }
}

} // verus!
