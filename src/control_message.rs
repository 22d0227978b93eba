//! Decoding of the messages the archive sends back, into one closed set of kinds.

use crate::bytes::{
    le_i32, le_i64, le_u16, le_u32, lemma_le_round_trip, read_i32, read_i64, read_u32, window,
};
use crate::codec::{
    block_bytes, header_bytes, message_bytes, parse_header, var_data_bytes, Field, MessageHeader,
    SCHEMA_VERSION, CHALLENGE_TEMPLATE_ID, CONTROL_RESPONSE_TEMPLATE_ID, HEADER_LENGTH,
    RECORDING_DESCRIPTOR_TEMPLATE_ID, RECORDING_SIGNAL_EVENT_TEMPLATE_ID, SCHEMA_ID,
};
use vstd::prelude::*;

verus! {

/// The i64 at `at` in the block of the message in `s`.
pub open spec fn block_i64(s: Seq<u8>, at: int) -> i64 {
    read_i64(window(s, HEADER_LENGTH + at, 8))
}

/// The i32 at `at` in the block of the message in `s`.
pub open spec fn block_i32(s: Seq<u8>, at: int) -> i32 {
    read_i32(window(s, HEADER_LENGTH + at, 4))
}

/// Where the `k`-th variable-length field of the message in `s` has its length
/// prefix, reading in order from the end of the block.
pub open spec fn var_cursor(s: Seq<u8>, k: nat) -> int
    decreases k,
{
    if k == 0 {
        HEADER_LENGTH + parse_header(s).block_length
    } else {
        let c = var_cursor(s, (k - 1) as nat);
        c + 4 + read_u32(window(s, c, 4))
    }
}

/// The `k`-th variable-length field of the message in `s`.
pub open spec fn var_field(s: Seq<u8>, k: nat) -> Seq<u8> {
    let c = var_cursor(s, k);
    window(s, c + 4, read_u32(window(s, c, 4)) as int)
}

/// Whether the message in `s` holds its first `count` variable-length fields whole.
pub open spec fn var_fields_fit(s: Seq<u8>, count: nat) -> bool {
    forall|k: nat| k < count ==> #[trigger] var_cursor(s, k + 1) <= s.len()
}

/// Whether `s` holds a header of this schema for `template_id`, a block of at least
/// `block_length` bytes, and `var_count` whole variable-length fields after it.
pub open spec fn well_formed(s: Seq<u8>, template_id: u16, block_length: int, var_count: nat) -> bool {
    &&& s.len() >= HEADER_LENGTH
    &&& parse_header(s).schema_id == SCHEMA_ID
    &&& parse_header(s).template_id == template_id
    &&& parse_header(s).block_length >= block_length
    &&& HEADER_LENGTH + parse_header(s).block_length <= s.len()
    &&& var_fields_fit(s, var_count)
}

/// Reads the variable-length field whose prefix is at `cursor`: its bytes and the
/// cursor after it, or `None` when it runs past the end.
fn read_var(data: &[u8], cursor: usize) -> (r: Option<(Vec<u8>, usize)>)
    ensures
        match r {
            Some((bytes, next)) => {
                &&& cursor + 4 <= data@.len()
                &&& next == cursor + 4 + read_u32(window(data@, cursor as int, 4))
                &&& next <= data@.len()
                &&& bytes@ == window(data@, cursor + 4, read_u32(window(data@, cursor as int, 4)) as int)
            },
            None => cursor + 4 > data@.len() || cursor + 4 + read_u32(window(data@, cursor as int, 4))
                > data@.len(),
        },
{
    match crate::codec::read_var_field(data, cursor) {
        None => None,
        Some((start, len)) => {
            assert(data@.len() == data.len());
            let bytes = vstd::slice::slice_to_vec(&data[start..start + len]);
            Some((bytes, start + len))
        },
    }
}

/// A request's outcome: a code, an id it concerns, and a message when it failed.
#[derive(Clone, Debug)]
pub struct ControlResponse {
    pub control_session_id: i64,
    pub correlation_id: i64,
    pub relevant_id: i64,
    pub code: i32,
    pub version: i32,
    pub error_message: Vec<u8>,
}

/// Whether `m` is what the control response in `s` holds.
pub open spec fn is_control_response_of(m: ControlResponse, s: Seq<u8>) -> bool {
    &&& m.control_session_id == block_i64(s, 0)
    &&& m.correlation_id == block_i64(s, 8)
    &&& m.relevant_id == block_i64(s, 16)
    &&& m.code == block_i32(s, 24)
    &&& m.version == block_i32(s, 28)
    &&& m.error_message@ == var_field(s, 0)
}

/// Decodes a control response, or `None` when `data` does not hold a whole one.
pub fn decode_control_response(data: &[u8]) -> (r: Option<ControlResponse>)
    ensures
        r is Some <==> well_formed(data@, CONTROL_RESPONSE_TEMPLATE_ID, 32, 1),
        r matches Some(m) ==> is_control_response_of(m, data@),
{
    let n = data.len();
    if n < HEADER_LENGTH {
        return None;
    }
    let header = crate::codec::MessageHeader::decode(data, 0);
    proof {
        crate::codec::lemma_parse_header_prefix(data@);
    }
    if header.schema_id != SCHEMA_ID || header.template_id != CONTROL_RESPONSE_TEMPLATE_ID
        || (header.block_length as usize) < 32 || n - HEADER_LENGTH < header.block_length as usize {
        return None;
    }
    let control_session_id = crate::bytes::read_i64_at(data, HEADER_LENGTH + 0);
    let correlation_id = crate::bytes::read_i64_at(data, HEADER_LENGTH + 8);
    let relevant_id = crate::bytes::read_i64_at(data, HEADER_LENGTH + 16);
    let code = crate::bytes::read_i32_at(data, HEADER_LENGTH + 24);
    let version = crate::bytes::read_i32_at(data, HEADER_LENGTH + 28);
    let cursor: usize = HEADER_LENGTH + header.block_length as usize;
    proof {
        assert(var_cursor(data@, 0) == cursor);
    }
    let (error_message, cursor) = match read_var(data, cursor) {
        Some(x) => x,
        None => {
            proof {
                assert(!var_fields_fit(data@, 1)) by {
                    assert(var_cursor(data@, 0 + 1) > data@.len());
                }
            }
            return None;
        },
    };
    proof {
        assert(var_cursor(data@, 0 + 1) == cursor);
    }
    proof {
        assert forall|k: nat| k < 1 implies #[trigger] var_cursor(data@, k + 1) <= data@.len() by {}
    }
    Some(ControlResponse {
        control_session_id,
        correlation_id,
        relevant_id,
        code,
        version,
        error_message,
    })
}

/// The archive asks the client to authenticate.
#[derive(Clone, Debug)]
pub struct Challenge {
    pub control_session_id: i64,
    pub correlation_id: i64,
    pub version: i32,
    pub encoded_challenge: Vec<u8>,
}

/// Whether `m` is what the challenge in `s` holds.
pub open spec fn is_challenge_of(m: Challenge, s: Seq<u8>) -> bool {
    &&& m.control_session_id == block_i64(s, 0)
    &&& m.correlation_id == block_i64(s, 8)
    &&& m.version == block_i32(s, 16)
    &&& m.encoded_challenge@ == var_field(s, 0)
}

/// Decodes a challenge, or `None` when `data` does not hold a whole one.
pub fn decode_challenge(data: &[u8]) -> (r: Option<Challenge>)
    ensures
        r is Some <==> well_formed(data@, CHALLENGE_TEMPLATE_ID, 20, 1),
        r matches Some(m) ==> is_challenge_of(m, data@),
{
    let n = data.len();
    if n < HEADER_LENGTH {
        return None;
    }
    let header = crate::codec::MessageHeader::decode(data, 0);
    proof {
        crate::codec::lemma_parse_header_prefix(data@);
    }
    if header.schema_id != SCHEMA_ID || header.template_id != CHALLENGE_TEMPLATE_ID
        || (header.block_length as usize) < 20 || n - HEADER_LENGTH < header.block_length as usize {
        return None;
    }
    let control_session_id = crate::bytes::read_i64_at(data, HEADER_LENGTH + 0);
    let correlation_id = crate::bytes::read_i64_at(data, HEADER_LENGTH + 8);
    let version = crate::bytes::read_i32_at(data, HEADER_LENGTH + 16);
    let cursor: usize = HEADER_LENGTH + header.block_length as usize;
    proof {
        assert(var_cursor(data@, 0) == cursor);
    }
    let (encoded_challenge, cursor) = match read_var(data, cursor) {
        Some(x) => x,
        None => {
            proof {
                assert(!var_fields_fit(data@, 1)) by {
                    assert(var_cursor(data@, 0 + 1) > data@.len());
                }
            }
            return None;
        },
    };
    proof {
        assert(var_cursor(data@, 0 + 1) == cursor);
    }
    proof {
        assert forall|k: nat| k < 1 implies #[trigger] var_cursor(data@, k + 1) <= data@.len() by {}
    }
    Some(Challenge {
        control_session_id,
        correlation_id,
        version,
        encoded_challenge,
    })
}

/// A recording changed: started, stopped, extended, and the like.
#[derive(Clone, Debug)]
pub struct RecordingSignalEvent {
    pub control_session_id: i64,
    pub correlation_id: i64,
    pub recording_id: i64,
    pub subscription_id: i64,
    pub position: i64,
    pub signal: i32,
}

/// Whether `m` is what the recording signal event in `s` holds.
pub open spec fn is_recording_signal_event_of(m: RecordingSignalEvent, s: Seq<u8>) -> bool {
    &&& m.control_session_id == block_i64(s, 0)
    &&& m.correlation_id == block_i64(s, 8)
    &&& m.recording_id == block_i64(s, 16)
    &&& m.subscription_id == block_i64(s, 24)
    &&& m.position == block_i64(s, 32)
    &&& m.signal == block_i32(s, 40)
}

/// Decodes a recording signal event, or `None` when `data` does not hold a whole one.
pub fn decode_recording_signal_event(data: &[u8]) -> (r: Option<RecordingSignalEvent>)
    ensures
        r is Some <==> well_formed(data@, RECORDING_SIGNAL_EVENT_TEMPLATE_ID, 44, 0),
        r matches Some(m) ==> is_recording_signal_event_of(m, data@),
{
    let n = data.len();
    if n < HEADER_LENGTH {
        return None;
    }
    let header = crate::codec::MessageHeader::decode(data, 0);
    proof {
        crate::codec::lemma_parse_header_prefix(data@);
    }
    if header.schema_id != SCHEMA_ID || header.template_id != RECORDING_SIGNAL_EVENT_TEMPLATE_ID
        || (header.block_length as usize) < 44 || n - HEADER_LENGTH < header.block_length as usize {
        return None;
    }
    let control_session_id = crate::bytes::read_i64_at(data, HEADER_LENGTH + 0);
    let correlation_id = crate::bytes::read_i64_at(data, HEADER_LENGTH + 8);
    let recording_id = crate::bytes::read_i64_at(data, HEADER_LENGTH + 16);
    let subscription_id = crate::bytes::read_i64_at(data, HEADER_LENGTH + 24);
    let position = crate::bytes::read_i64_at(data, HEADER_LENGTH + 32);
    let signal = crate::bytes::read_i32_at(data, HEADER_LENGTH + 40);
    let cursor: usize = HEADER_LENGTH + header.block_length as usize;
    proof {
        assert(var_cursor(data@, 0) == cursor);
    }
    Some(RecordingSignalEvent {
        control_session_id,
        correlation_id,
        recording_id,
        subscription_id,
        position,
        signal,
    })
}

/// One recording as the catalog describes it.
#[derive(Clone, Debug)]
pub struct RecordingDescriptor {
    pub control_session_id: i64,
    pub correlation_id: i64,
    pub recording_id: i64,
    pub start_timestamp: i64,
    pub stop_timestamp: i64,
    pub start_position: i64,
    pub stop_position: i64,
    pub initial_term_id: i32,
    pub segment_file_length: i32,
    pub term_buffer_length: i32,
    pub mtu_length: i32,
    pub session_id: i32,
    pub stream_id: i32,
    pub stripped_channel: Vec<u8>,
    pub original_channel: Vec<u8>,
    pub source_identity: Vec<u8>,
}

/// Whether `m` is what the recording descriptor in `s` holds.
pub open spec fn is_recording_descriptor_of(m: RecordingDescriptor, s: Seq<u8>) -> bool {
    &&& m.control_session_id == block_i64(s, 0)
    &&& m.correlation_id == block_i64(s, 8)
    &&& m.recording_id == block_i64(s, 16)
    &&& m.start_timestamp == block_i64(s, 24)
    &&& m.stop_timestamp == block_i64(s, 32)
    &&& m.start_position == block_i64(s, 40)
    &&& m.stop_position == block_i64(s, 48)
    &&& m.initial_term_id == block_i32(s, 56)
    &&& m.segment_file_length == block_i32(s, 60)
    &&& m.term_buffer_length == block_i32(s, 64)
    &&& m.mtu_length == block_i32(s, 68)
    &&& m.session_id == block_i32(s, 72)
    &&& m.stream_id == block_i32(s, 76)
    &&& m.stripped_channel@ == var_field(s, 0)
    &&& m.original_channel@ == var_field(s, 1)
    &&& m.source_identity@ == var_field(s, 2)
}

/// Decodes a recording descriptor, or `None` when `data` does not hold a whole one.
pub fn decode_recording_descriptor(data: &[u8]) -> (r: Option<RecordingDescriptor>)
    ensures
        r is Some <==> well_formed(data@, RECORDING_DESCRIPTOR_TEMPLATE_ID, 80, 3),
        r matches Some(m) ==> is_recording_descriptor_of(m, data@),
{
    let n = data.len();
    if n < HEADER_LENGTH {
        return None;
    }
    let header = crate::codec::MessageHeader::decode(data, 0);
    proof {
        crate::codec::lemma_parse_header_prefix(data@);
    }
    if header.schema_id != SCHEMA_ID || header.template_id != RECORDING_DESCRIPTOR_TEMPLATE_ID
        || (header.block_length as usize) < 80 || n - HEADER_LENGTH < header.block_length as usize {
        return None;
    }
    let control_session_id = crate::bytes::read_i64_at(data, HEADER_LENGTH + 0);
    let correlation_id = crate::bytes::read_i64_at(data, HEADER_LENGTH + 8);
    let recording_id = crate::bytes::read_i64_at(data, HEADER_LENGTH + 16);
    let start_timestamp = crate::bytes::read_i64_at(data, HEADER_LENGTH + 24);
    let stop_timestamp = crate::bytes::read_i64_at(data, HEADER_LENGTH + 32);
    let start_position = crate::bytes::read_i64_at(data, HEADER_LENGTH + 40);
    let stop_position = crate::bytes::read_i64_at(data, HEADER_LENGTH + 48);
    let initial_term_id = crate::bytes::read_i32_at(data, HEADER_LENGTH + 56);
    let segment_file_length = crate::bytes::read_i32_at(data, HEADER_LENGTH + 60);
    let term_buffer_length = crate::bytes::read_i32_at(data, HEADER_LENGTH + 64);
    let mtu_length = crate::bytes::read_i32_at(data, HEADER_LENGTH + 68);
    let session_id = crate::bytes::read_i32_at(data, HEADER_LENGTH + 72);
    let stream_id = crate::bytes::read_i32_at(data, HEADER_LENGTH + 76);
    let cursor: usize = HEADER_LENGTH + header.block_length as usize;
    proof {
        assert(var_cursor(data@, 0) == cursor);
    }
    let (stripped_channel, cursor) = match read_var(data, cursor) {
        Some(x) => x,
        None => {
            proof {
                assert(!var_fields_fit(data@, 3)) by {
                    assert(var_cursor(data@, 0 + 1) > data@.len());
                }
            }
            return None;
        },
    };
    proof {
        assert(var_cursor(data@, 0 + 1) == cursor);
    }
    let (original_channel, cursor) = match read_var(data, cursor) {
        Some(x) => x,
        None => {
            proof {
                assert(!var_fields_fit(data@, 3)) by {
                    assert(var_cursor(data@, 1 + 1) > data@.len());
                }
            }
            return None;
        },
    };
    proof {
        assert(var_cursor(data@, 1 + 1) == cursor);
    }
    let (source_identity, cursor) = match read_var(data, cursor) {
        Some(x) => x,
        None => {
            proof {
                assert(!var_fields_fit(data@, 3)) by {
                    assert(var_cursor(data@, 2 + 1) > data@.len());
                }
            }
            return None;
        },
    };
    proof {
        assert(var_cursor(data@, 2 + 1) == cursor);
    }
    proof {
        assert forall|k: nat| k < 3 implies #[trigger] var_cursor(data@, k + 1) <= data@.len() by {}
    }
    Some(RecordingDescriptor {
        control_session_id,
        correlation_id,
        recording_id,
        start_timestamp,
        stop_timestamp,
        start_position,
        stop_position,
        initial_term_id,
        segment_file_length,
        term_buffer_length,
        mtu_length,
        session_id,
        stream_id,
        stripped_channel,
        original_channel,
        source_identity,
    })
}

/// A message from the archive, by kind.
#[derive(Clone, Debug)]
pub enum ControlMessage {
    Response(ControlResponse),
    Challenge(Challenge),
    Signal(RecordingSignalEvent),
    Descriptor(RecordingDescriptor),
    /// A message of this schema that none of the kinds above decodes: another
    /// template id, or one too short for its kind.
    Unknown(u16),
    /// Bytes that do not start with a header of this schema.
    Malformed,
}

/// Why a message was passed over: a template id that no kind here decodes (or
/// too short for its kind), or bytes that are not a message of this schema.
#[derive(Clone, Copy, Debug, PartialEq, Eq, Structural)]
pub enum Rejection {
    UnknownTemplate(u16),
    Malformed,
}

/// What to report of a decoded message, if it was passed over.
pub open spec fn rejection_of(m: ControlMessage) -> Option<Rejection> {
    match m {
        ControlMessage::Unknown(t) => Some(Rejection::UnknownTemplate(t)),
        ControlMessage::Malformed => Some(Rejection::Malformed),
        _ => None,
    }
}

/// The kind of message in `s` and what it holds.
pub open spec fn is_decoded_as(r: ControlMessage, s: Seq<u8>) -> bool {
    if s.len() < HEADER_LENGTH || parse_header(s).schema_id != SCHEMA_ID {
        r is Malformed
    } else if well_formed(s, CONTROL_RESPONSE_TEMPLATE_ID, 32, 1) {
        r matches ControlMessage::Response(m) && is_control_response_of(m, s)
    } else if well_formed(s, CHALLENGE_TEMPLATE_ID, 20, 1) {
        r matches ControlMessage::Challenge(m) && is_challenge_of(m, s)
    } else if well_formed(s, RECORDING_SIGNAL_EVENT_TEMPLATE_ID, 44, 0) {
        r matches ControlMessage::Signal(m) && is_recording_signal_event_of(m, s)
    } else if well_formed(s, RECORDING_DESCRIPTOR_TEMPLATE_ID, 80, 3) {
        r matches ControlMessage::Descriptor(m) && is_recording_descriptor_of(m, s)
    } else {
        r == ControlMessage::Unknown(parse_header(s).template_id)
    }
}

/// Decodes one whole message from the archive.
pub fn decode_control_message(data: &[u8]) -> (r: ControlMessage)
    ensures
        is_decoded_as(r, data@),
{
    if data.len() < HEADER_LENGTH {
        return ControlMessage::Malformed;
    }
    let header = crate::codec::MessageHeader::decode(data, 0);
    proof {
        crate::codec::lemma_parse_header_prefix(data@);
    }
    if header.schema_id != SCHEMA_ID {
        return ControlMessage::Malformed;
    }
    if let Some(m) = decode_control_response(data) {
        return ControlMessage::Response(m);
    }
    if let Some(m) = decode_challenge(data) {
        return ControlMessage::Challenge(m);
    }
    if let Some(m) = decode_recording_signal_event(data) {
        return ControlMessage::Signal(m);
    }
    if let Some(m) = decode_recording_descriptor(data) {
        return ControlMessage::Descriptor(m);
    }
    ControlMessage::Unknown(header.template_id)
}

/// The bytes of a control response with these fields.
pub open spec fn control_response_bytes(
    control_session_id: i64,
    correlation_id: i64,
    relevant_id: i64,
    code: i32,
    version: i32,
    error_message: Seq<u8>,
) -> Seq<u8> {
    message_bytes(
        CONTROL_RESPONSE_TEMPLATE_ID,
        seq![
            Field::I64(control_session_id),
            Field::I64(correlation_id),
            Field::I64(relevant_id),
            Field::I32(code),
            Field::I32(version),
        ],
        seq![error_message],
    )
}

/// A control response decodes to the fields it was encoded with.
pub proof fn lemma_control_response_round_trip(
    control_session_id: i64,
    correlation_id: i64,
    relevant_id: i64,
    code: i32,
    version: i32,
    error_message: Seq<u8>,
)
    requires
        error_message.len() <= u32::MAX,
    ensures
        ({
            let s = control_response_bytes(
                control_session_id,
                correlation_id,
                relevant_id,
                code,
                version,
                error_message,
            );
            &&& well_formed(s, CONTROL_RESPONSE_TEMPLATE_ID, 32, 1)
            &&& forall|m: ControlResponse| #[trigger] is_control_response_of(m, s) ==> {
                &&& m.control_session_id == control_session_id
                &&& m.correlation_id == correlation_id
                &&& m.relevant_id == relevant_id
                &&& m.code == code
                &&& m.version == version
                &&& m.error_message@ == error_message
            }
        }),
{
    lemma_le_round_trip();
    let f0 = Field::I64(control_session_id);
    let f1 = Field::I64(correlation_id);
    let f2 = Field::I64(relevant_id);
    let f3 = Field::I32(code);
    let f4 = Field::I32(version);
    let fs = seq![f0, f1, f2, f3, f4];
    assert(fs.drop_last() =~= seq![f0, f1, f2, f3]);
    assert(fs.drop_last().drop_last() =~= seq![f0, f1, f2]);
    assert(fs.drop_last().drop_last().drop_last() =~= seq![f0, f1]);
    assert(fs.drop_last().drop_last().drop_last().drop_last() =~= seq![f0]);
    assert(seq![f0].drop_last() =~= Seq::<Field>::empty());
    let block = le_i64(control_session_id) + le_i64(correlation_id) + le_i64(relevant_id) + le_i32(code)
        + le_i32(version);
    assert(block_bytes(Seq::<Field>::empty()) =~= Seq::<u8>::empty());
    assert(block_bytes(seq![f0]) =~= le_i64(control_session_id));
    assert(block_bytes(seq![f0, f1]) =~= block_bytes(seq![f0]) + le_i64(correlation_id));
    assert(block_bytes(seq![f0, f1, f2]) =~= block_bytes(seq![f0, f1]) + le_i64(relevant_id));
    assert(block_bytes(seq![f0, f1, f2, f3]) =~= block_bytes(seq![f0, f1, f2]) + le_i32(code));
    assert(block_bytes(fs) =~= block_bytes(seq![f0, f1, f2, f3]) + le_i32(version));
    assert(block_bytes(fs) =~= block);
    let vs = seq![error_message];
    assert(vs.drop_last() =~= Seq::<Seq<u8>>::empty());
    assert(var_data_bytes(Seq::<Seq<u8>>::empty()) =~= Seq::<u8>::empty());
    assert(vs.last() == error_message);
    assert(var_data_bytes(vs) =~= le_u32(error_message.len() as u32) + error_message);
    let h = MessageHeader {
        block_length: 32,
        template_id: CONTROL_RESPONSE_TEMPLATE_ID,
        schema_id: SCHEMA_ID,
        version: SCHEMA_VERSION,
    };
    let s = control_response_bytes(control_session_id, correlation_id, relevant_id, code, version, error_message);
    assert(s =~= header_bytes(h) + block + (le_u32(error_message.len() as u32) + error_message));
    assert(window(s, 0, 2) =~= le_u16(32));
    assert(window(s, 2, 2) =~= le_u16(CONTROL_RESPONSE_TEMPLATE_ID));
    assert(window(s, 4, 2) =~= le_u16(SCHEMA_ID));
    assert(window(s, 6, 2) =~= le_u16(SCHEMA_VERSION));
    assert(parse_header(s) == h);
    assert(window(s, 8, 8) =~= le_i64(control_session_id));
    assert(window(s, 16, 8) =~= le_i64(correlation_id));
    assert(window(s, 24, 8) =~= le_i64(relevant_id));
    assert(window(s, 32, 4) =~= le_i32(code));
    assert(window(s, 36, 4) =~= le_i32(version));
    assert(window(s, 40, 4) =~= le_u32(error_message.len() as u32));
    assert(var_cursor(s, 0) == 40);
    assert(var_cursor(s, 1) == 44 + error_message.len());
    assert(window(s, 44, error_message.len() as int) =~= error_message);
    assert(var_fields_fit(s, 1)) by {
        assert forall|k: nat| k < 1 implies #[trigger] var_cursor(s, k + 1) <= s.len() by {
            assert(k == 0);
        }
    }
}

/// Requests carry distinct correlation ids. Whatever order the responses come
/// in, each one decodes to the correlation id it was sent with, and that id
/// names exactly one request: the one it answers.
pub proof fn lemma_correlation_matching(
    correlation_ids: Seq<i64>,
    answered: int,
    control_session_id: i64,
    relevant_id: i64,
    code: i32,
    version: i32,
    error_message: Seq<u8>,
)
    requires
        forall|i: int, j: int|
            0 <= i < correlation_ids.len() && 0 <= j < correlation_ids.len() && i != j
                ==> correlation_ids[i] != correlation_ids[j],
        0 <= answered < correlation_ids.len(),
        error_message.len() <= u32::MAX,
    ensures
        forall|r: ControlMessage|
            #[trigger] is_decoded_as(
                r,
                control_response_bytes(
                    control_session_id,
                    correlation_ids[answered],
                    relevant_id,
                    code,
                    version,
                    error_message,
                ),
            ) ==> (r matches ControlMessage::Response(m) && m.correlation_id == correlation_ids[answered]
                && forall|i: int|
                0 <= i < correlation_ids.len() && correlation_ids[i] == m.correlation_id ==> i == answered),
{
    lemma_control_response_round_trip(
        control_session_id,
        correlation_ids[answered],
        relevant_id,
        code,
        version,
        error_message,
    );
}

} // verus!
