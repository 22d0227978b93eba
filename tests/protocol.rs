use aeron_archive::aeron_archive::{close_failures, AeronArchive, CloseStep};
use aeron_archive::archive_proxy::{ArchiveProxy, ReplayParams};
use aeron_archive::configuration::PROTOCOL_SEMANTIC_VERSION;
use aeron_archive::codec::{
    encode_message, Field, MessageHeader, BOUNDED_REPLAY_REQUEST_TEMPLATE_ID,
    CONTROL_RESPONSE_TEMPLATE_ID, KEEP_ALIVE_REQUEST_TEMPLATE_ID,
    RECORDING_DESCRIPTOR_TEMPLATE_ID, RECORDING_SIGNAL_EVENT_TEMPLATE_ID,
    REPLAY_REQUEST_TEMPLATE_ID, START_RECORDING_REQUEST_TEMPLATE_ID,
};
use aeron_archive::context::Context;
use aeron_archive::control_message::{decode_control_message, ControlMessage, Rejection};
use aeron_archive::control_response_poller::{ControlResponseState, NULL_VALUE};
use aeron_archive::enums::{BooleanType, RecordingState, SourceLocation};
use aeron_archive::fragment_assembler::{
    frame_end, Action, ControlledFragmentAssembler, ControlledFragmentHandler, Header,
    BEGIN_FRAG_FLAG, END_FRAG_FLAG, UNFRAGMENTED,
};
use aeron_archive::recording_descriptor_poller::{Dispatch, RecordingDescriptorState, CODE_ERROR, CODE_RECORDING_UNKNOWN};
use aeron_archive::transport::{BusySpinIdleStrategy, Clock, Publication, BACK_PRESSURED, NOT_CONNECTED};

struct Collector {
    messages: Vec<Vec<u8>>,
    answer: Action,
}

impl ControlledFragmentHandler for Collector {
    fn on_fragment(&mut self, buffer: &[u8], offset: usize, length: usize, _header: &Header) -> Action {
        self.messages.push(buffer[offset..offset + length].to_vec());
        self.answer
    }
}

fn collector(answer: Action) -> ControlledFragmentAssembler<Collector> {
    ControlledFragmentAssembler::new(Collector { messages: Vec::new(), answer })
}

fn next_offset(offset: usize, length: usize) -> usize {
    frame_end(offset, length) as usize
}

#[test]
fn fragments_reassemble_into_original() {
    let message: Vec<u8> = (0..250u32).map(|i| i as u8).collect();
    let parts = [&message[0..100], &message[100..150], &message[150..200], &message[200..250]];
    let mut term = vec![0u8; 2048];
    let mut offsets = Vec::new();
    let mut offset = 64;
    for part in parts.iter() {
        offsets.push(offset);
        term[offset..offset + part.len()].copy_from_slice(part);
        offset = next_offset(offset, part.len());
    }
    let mut assembler = collector(Action::Continue);
    let flags = [BEGIN_FRAG_FLAG, 0, 0, END_FRAG_FLAG];
    let mut actions = Vec::new();
    for k in 0..4 {
        let header = Header { session_id: 7, flags: flags[k] };
        actions.push(assembler.on_fragment(&term, offsets[k], parts[k].len(), &header));
    }
    assert_eq!(actions, vec![Action::Continue; 4]);
    assert_eq!(assembler.delegate().messages, vec![message.clone()]);
    let unfragmented = Header { session_id: 7, flags: UNFRAGMENTED };
    assembler.on_fragment(&term, 64, 10, &unfragmented);
    assert_eq!(assembler.delegate().messages.len(), 2);
    assert_eq!(assembler.delegate().messages[1], term[64..74].to_vec());
    assert!(assembler.free_session_buffer(7));
    assert!(!assembler.free_session_buffer(7));
}

#[test]
fn unfragmented_is_delivered_at_once() {
    let term: Vec<u8> = (0..64u8).collect();
    let mut assembler = collector(Action::Break);
    let action = assembler.on_fragment(&term, 8, 16, &Header { session_id: 1, flags: UNFRAGMENTED });
    assert_eq!(action, Action::Break);
    assert_eq!(assembler.delegate().messages, vec![term[8..24].to_vec()]);
    assert!(!assembler.free_session_buffer(1));
}

#[test]
fn gap_discards_partial_message() {
    let term = vec![5u8; 1024];
    let mut assembler = collector(Action::Continue);
    assembler.on_fragment(&term, 0, 40, &Header { session_id: 3, flags: BEGIN_FRAG_FLAG });
    let expected = next_offset(0, 40);
    assert_eq!(expected, 96);
    assembler.on_fragment(&term, expected + 32, 40, &Header { session_id: 3, flags: 0 });
    assembler.on_fragment(&term, next_offset(expected + 32, 40), 40, &Header { session_id: 3, flags: END_FRAG_FLAG });
    assert!(assembler.delegate().messages.is_empty());
    // a middle fragment of another session that never began is ignored too
    assembler.on_fragment(&term, 0, 40, &Header { session_id: 4, flags: END_FRAG_FLAG });
    assert!(assembler.delegate().messages.is_empty());
}

#[test]
fn abort_keeps_partial_message_for_redelivery() {
    let term: Vec<u8> = (0..200u8).collect();
    let mut assembler = collector(Action::Abort);
    assembler.on_fragment(&term, 0, 10, &Header { session_id: 9, flags: BEGIN_FRAG_FLAG });
    let end = next_offset(0, 10);
    let action = assembler.on_fragment(&term, end, 5, &Header { session_id: 9, flags: END_FRAG_FLAG });
    assert_eq!(action, Action::Abort);
    assembler.on_fragment(&term, end, 5, &Header { session_id: 9, flags: END_FRAG_FLAG });
    let mut whole = term[0..10].to_vec();
    whole.extend_from_slice(&term[end..end + 5]);
    assert_eq!(assembler.delegate().messages, vec![whole.clone(), whole]);
}

struct MockPublication {
    results: Vec<i64>,
    offers: usize,
    last: Vec<u8>,
}

impl Publication for MockPublication {
    fn offer(&mut self, buffer: &[u8], offset: usize, length: usize) -> i64 {
        self.last = buffer[offset..offset + length].to_vec();
        let r = self.results[self.offers.min(self.results.len() - 1)];
        self.offers += 1;
        r
    }

    fn is_connected(&self) -> bool {
        true
    }
}

struct StepClock {
    now: u64,
    step: u64,
}

impl Clock for StepClock {
    fn nano_time(&mut self) -> u64 {
        let t = self.now;
        self.now += self.step;
        t
    }
}

fn proxy(results: Vec<i64>, step: u64) -> ArchiveProxy<MockPublication, BusySpinIdleStrategy, StepClock> {
    ArchiveProxy::new(MockPublication { results, offers: 0, last: Vec::new() }, BusySpinIdleStrategy, StepClock { now: 0, step })
}

#[test]
fn back_pressure_uses_every_retry_attempt() {
    let mut p = proxy(vec![BACK_PRESSURED], 1);
    assert!(!p.keep_alive(42, 7));
    assert_eq!(p.publication().offers, 3);
    assert_eq!(p.buffer_capacity(), 256);
    let expected = encode_message(KEEP_ALIVE_REQUEST_TEMPLATE_ID, &[Field::I64(42), Field::I64(7)], &[]);
    assert_eq!(p.publication().last, expected);
}

#[test]
fn not_connected_fails_without_retry() {
    let mut p = proxy(vec![NOT_CONNECTED], 1);
    assert!(!p.close_session(42));
    assert_eq!(p.publication().offers, 1);
}

#[test]
fn send_succeeds_after_back_pressure() {
    let mut p = proxy(vec![BACK_PRESSURED, 100], 1);
    assert!(p.start_recording("aeron:ipc".to_string(), 10, SourceLocation::REMOTE, 5, 42));
    assert_eq!(p.publication().offers, 2);
    let channel: &[u8] = b"aeron:ipc";
    let expected = encode_message(
        START_RECORDING_REQUEST_TEMPLATE_ID,
        &[Field::I64(42), Field::I64(5), Field::I32(10), Field::I32(1)],
        &[channel],
    );
    assert_eq!(p.publication().last, expected);
}

#[test]
fn deadline_send_gives_up_once_timeout_passes() {
    // the clock moves one second per reading; the timeout is ten seconds
    let mut p = proxy(vec![BACK_PRESSURED], 1_000_000_000);
    assert!(!p.connect("aeron:udp?endpoint=localhost:0".to_string(), 20, 99));
    assert_eq!(p.publication().offers, 11);
    let mut q = proxy(vec![BACK_PRESSURED, BACK_PRESSURED, 7], 1_000_000_000);
    assert!(q.connect("aeron:ipc".to_string(), 20, 99));
    assert_eq!(q.publication().offers, 3);
    let channel: &[u8] = b"aeron:ipc";
    let expected = encode_message(
        58,
        &[Field::I64(99), Field::I32(20), Field::I32(PROTOCOL_SEMANTIC_VERSION)],
        &[channel, &[]],
    );
    assert_eq!(q.publication().last, expected);
}

#[test]
fn replay_params_choose_bounded_replay() {
    let mut p = proxy(vec![1], 1);
    let mut params = ReplayParams::new();
    params.position = 0;
    params.length = 4096;
    assert!(!params.is_bounded());
    assert!(p.replay_with_params(3, "aeron:ipc".to_string(), 11, &params, 8, 42));
    assert_eq!(MessageHeader::decode(&p.publication().last, 0).template_id, REPLAY_REQUEST_TEMPLATE_ID);
    params.bounding_limit_counter_id = 17;
    assert!(params.is_bounded());
    assert!(p.replay_with_params(3, "aeron:ipc".to_string(), 11, &params, 9, 42));
    assert_eq!(MessageHeader::decode(&p.publication().last, 0).template_id, BOUNDED_REPLAY_REQUEST_TEMPLATE_ID);
}

fn control_response(correlation_id: i64, code: i32, message: &[u8]) -> Vec<u8> {
    encode_message(
        CONTROL_RESPONSE_TEMPLATE_ID,
        &[Field::I64(42), Field::I64(correlation_id), Field::I64(500), Field::I32(code), Field::I32(0)],
        &[message],
    )
}

#[test]
fn responses_match_requests_in_any_order() {
    let ids = [11i64, 12, 13];
    let arrivals = [13i64, 11, 12];
    let mut matched = Vec::new();
    for id in arrivals {
        match decode_control_message(&control_response(id, 0, b"")) {
            ControlMessage::Response(r) => {
                let which: Vec<usize> = (0..ids.len()).filter(|&i| ids[i] == r.correlation_id).collect();
                assert_eq!(which.len(), 1);
                matched.push(which[0]);
            }
            _ => panic!("not a control response"),
        }
    }
    assert_eq!(matched, vec![2, 0, 1]);
}

#[test]
fn unknown_and_malformed_messages() {
    let other = encode_message(RECORDING_DESCRIPTOR_TEMPLATE_ID + 100, &[Field::I64(1)], &[]);
    assert!(matches!(decode_control_message(&other), ControlMessage::Unknown(122)));
    let mut state = ControlResponseState::new();
    assert_eq!(state.on_message(&other), Action::Continue);
    assert_eq!(state.last_rejection, Some(Rejection::UnknownTemplate(122)));
    assert_eq!(state.on_message(&[0u8; 3]), Action::Continue);
    assert_eq!(state.last_rejection, Some(Rejection::Malformed));
    assert!(!state.is_poll_complete);
    assert!(matches!(decode_control_message(&[1, 2, 3]), ControlMessage::Malformed));
    let mut wrong_schema = control_response(1, 0, b"");
    wrong_schema[4] = 99;
    assert!(matches!(decode_control_message(&wrong_schema), ControlMessage::Malformed));
    let truncated = control_response(1, 0, b"boom");
    assert!(matches!(decode_control_message(&truncated[..truncated.len() - 1]), ControlMessage::Unknown(1)));
}

#[test]
fn control_response_state_keeps_one_message_per_poll() {
    let mut state = ControlResponseState::new();
    assert_eq!(state.on_message(&control_response(5, 1, b"no such recording")), Action::Break);
    assert!(state.is_poll_complete);
    assert_eq!(state.correlation_id, 5);
    assert_eq!(state.relevant_id, 500);
    assert_eq!(state.code, 1);
    assert_eq!(state.error_message.as_deref(), Some(&b"no such recording"[..]));
    assert_eq!(state.on_message(&control_response(6, 0, b"")), Action::Abort);
    state.reset_if_complete();
    assert_eq!(state.correlation_id, NULL_VALUE);
    assert!(!state.is_poll_complete);
    let signal = encode_message(
        RECORDING_SIGNAL_EVENT_TEMPLATE_ID,
        &[Field::I64(42), Field::I64(6), Field::I64(3), Field::I64(4), Field::I64(1024), Field::I32(2)],
        &[],
    );
    assert_eq!(state.on_message(&signal), Action::Break);
    assert_eq!(state.recording_id, 3);
    assert_eq!(state.position, 1024);
    assert_eq!(state.recording_signal, Some(2));
}

fn descriptor(correlation_id: i64, recording_id: i64) -> Vec<u8> {
    let mut fields = vec![Field::I64(42), Field::I64(correlation_id), Field::I64(recording_id)];
    for v in 0..4 {
        fields.push(Field::I64(v));
    }
    for v in 0..6 {
        fields.push(Field::I32(v));
    }
    let a: &[u8] = b"aeron:ipc";
    encode_message(RECORDING_DESCRIPTOR_TEMPLATE_ID, &fields, &[a, a, b"src"])
}

#[test]
fn descriptor_listing_counts_down() {
    let mut state = RecordingDescriptorState { control_session_id: 42, correlation_id: 8, remaining_record_count: 2, is_dispatch_complete: false };
    let (action, dispatch) = state.on_message(&descriptor(8, 100));
    assert_eq!(action, Action::Continue);
    assert!(matches!(dispatch, Dispatch::Descriptor(ref d) if d.recording_id == 100 && d.source_identity == b"src".to_vec()));
    let (action, dispatch) = state.on_message(&descriptor(9, 101));
    assert_eq!(action, Action::Continue);
    assert!(matches!(dispatch, Dispatch::Nothing));
    let (action, _) = state.on_message(&descriptor(8, 102));
    assert_eq!(action, Action::Break);
    assert!(state.is_dispatch_complete);
    assert_eq!(state.remaining_record_count, 0);
    let (action, dispatch) = state.on_message(&descriptor(8, 103));
    assert_eq!(action, Action::Abort);
    assert!(matches!(dispatch, Dispatch::Nothing));
}

#[test]
fn descriptor_listing_ends_on_unknown_or_error() {
    let mut state = RecordingDescriptorState { control_session_id: 42, correlation_id: 8, remaining_record_count: 5, is_dispatch_complete: false };
    let (action, dispatch) = state.on_message(&control_response(3, CODE_ERROR, b"other"));
    assert_eq!(action, Action::Continue);
    assert!(matches!(dispatch, Dispatch::Error(ref r) if r.correlation_id == 3));
    let (action, _) = state.on_message(&control_response(8, CODE_RECORDING_UNKNOWN, b""));
    assert_eq!(action, Action::Break);
    assert!(state.is_dispatch_complete);
    let mut failing = RecordingDescriptorState { control_session_id: 42, correlation_id: 8, remaining_record_count: 5, is_dispatch_complete: false };
    let (action, dispatch) = failing.on_message(&control_response(8, CODE_ERROR, b"bad"));
    assert_eq!(action, Action::Break);
    assert!(matches!(dispatch, Dispatch::Failed(_)));
    let mut listing = RecordingDescriptorState { control_session_id: 42, correlation_id: 8, remaining_record_count: 5, is_dispatch_complete: false };
    let (action, dispatch) = listing.on_message(&[1u8, 2, 3]);
    assert_eq!(action, Action::Continue);
    assert!(matches!(dispatch, Dispatch::Rejected(Rejection::Malformed)));
}

#[test]
fn close_twice_is_one_close() {
    let context = Context::new("/dev/shm/aeron".to_string());
    let mut archive = AeronArchive::new(42, 10_000_000_000, context);
    let first = archive.close(true);
    assert_eq!(
        first,
        vec![CloseStep::SendCloseSession(42), CloseStep::ClosePublication, CloseStep::CloseSubscription, CloseStep::CloseContext]
    );
    assert!(archive.is_closed());
    assert!(archive.close(true).is_empty());
    assert!(archive.close(false).is_empty());
}

#[test]
fn close_of_owning_disconnected_session() {
    let mut context = Context::new("/dev/shm/aeron".to_string());
    assert!(context.conclude());
    assert!(!context.owns_aeron_client);
    context.aeron_client_created();
    assert!(context.owns_aeron_client);
    assert!(!context.conclude());
    let mut archive = AeronArchive::new(7, 1, context);
    assert_eq!(archive.close(false), vec![CloseStep::CloseContext]);
}

#[test]
fn close_failures_report_first() {
    let outcomes = [
        (CloseStep::SendCloseSession(1), false),
        (CloseStep::ClosePublication, true),
        (CloseStep::CloseContext, false),
    ];
    let (failed, first) = close_failures(&outcomes);
    assert_eq!(failed, vec![CloseStep::SendCloseSession(1), CloseStep::CloseContext]);
    assert_eq!(first, Some(CloseStep::SendCloseSession(1)));
    assert_eq!(close_failures(&[(CloseStep::CloseContext, true)]), (vec![], None));
}

#[test]
fn segment_base_positions() {
    assert_eq!(AeronArchive::segment_file_base_position(0, 0, 65536, 131072), 0);
    assert_eq!(AeronArchive::segment_file_base_position(70000, 300000, 65536, 131072), 65536 + 131072);
}

#[test]
fn enums_from_wire_values() {
    assert_eq!(BooleanType::from(1), BooleanType::TRUE);
    assert_eq!(BooleanType::from(0), BooleanType::FALSE);
    assert_eq!(BooleanType::from(5), BooleanType::NullVal);
    assert_eq!(RecordingState::from(1), RecordingState::VALID);
    assert_eq!(SourceLocation::from(0), SourceLocation::LOCAL);
    assert_eq!(SourceLocation::default(), SourceLocation::NullVal);
    assert_eq!(RecordingState::default().value(), i32::MIN);
    assert_eq!(BooleanType::of_bool(true).value(), 1);
}

#[test]
fn list_recording_subscriptions_layout() {
    let mut p = proxy(vec![1], 1);
    assert!(p.list_recording_subscriptions(2, 5, "aeron:udp".to_string(), 1001, true, 77, 42));
    let channel: &[u8] = b"aeron:udp";
    let expected = encode_message(
        17,
        &[Field::I64(42), Field::I64(77), Field::I32(2), Field::I32(5), Field::I32(1), Field::I32(1001)],
        &[channel],
    );
    assert_eq!(p.publication().last, expected);
    assert_eq!(&expected[0..8], &[32, 0, 17, 0, 101, 0, 7, 0]);
}

#[test]
fn challenge_response_is_offered_once() {
    let mut p = proxy(vec![BACK_PRESSURED], 1);
    assert!(!p.try_challenge_response(b"secret", 3, 42));
    assert_eq!(p.publication().offers, 1);
    let credentials: &[u8] = b"secret";
    assert_eq!(p.publication().last, encode_message(60, &[Field::I64(42), Field::I64(3)], &[credentials]));
}

#[test]
fn system_clock_does_not_go_back() {
    let clock = aeron_archive::nano_clock::NanoClock::instance();
    let first = clock.nano_time();
    let second = clock.nano_time();
    assert!(second >= first);
}
