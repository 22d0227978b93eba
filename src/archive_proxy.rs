//! Sends the archive's control requests: each is encoded into one scratch buffer
//! and offered to the publication, retrying while the transport pushes back.

use crate::codec::{
    encode_message, fits, lemma_fits, message_bytes, views, Field,
    ATTACH_SEGMENTS_REQUEST_TEMPLATE_ID,
    AUTH_CONNECT_REQUEST_TEMPLATE_ID,
    BOUNDED_REPLAY_REQUEST_TEMPLATE_ID,
    CHALLENGE_RESPONSE_TEMPLATE_ID,
    CLOSE_SESSION_REQUEST_TEMPLATE_ID,
    DELETE_DETACHED_SEGMENTS_REQUEST_TEMPLATE_ID,
    DETACH_SEGMENTS_REQUEST_TEMPLATE_ID,
    EXTEND_RECORDING_REQUEST_2_TEMPLATE_ID,
    EXTEND_RECORDING_REQUEST_TEMPLATE_ID,
    FIND_LAST_MATCHING_RECORDING_REQUEST_TEMPLATE_ID,
    KEEP_ALIVE_REQUEST_TEMPLATE_ID,
    LIST_RECORDINGS_FOR_URI_REQUEST_TEMPLATE_ID,
    LIST_RECORDINGS_REQUEST_TEMPLATE_ID,
    LIST_RECORDING_REQUEST_TEMPLATE_ID,
    LIST_RECORDING_SUBSCRIPTIONS_REQUEST_TEMPLATE_ID,
    MIGRATE_SEGMENTS_REQUEST_TEMPLATE_ID,
    PURGE_RECORDING_REQUEST_TEMPLATE_ID,
    PURGE_SEGMENTS_REQUEST_TEMPLATE_ID,
    RECORDING_POSITION_REQUEST_TEMPLATE_ID,
    REPLAY_REQUEST_TEMPLATE_ID,
    REPLICATE_REQUEST_2_TEMPLATE_ID,
    START_POSITION_REQUEST_TEMPLATE_ID,
    START_RECORDING_REQUEST_2_TEMPLATE_ID,
    START_RECORDING_REQUEST_TEMPLATE_ID,
    STOP_ALL_REPLAYS_REQUEST_TEMPLATE_ID,
    STOP_POSITION_REQUEST_TEMPLATE_ID,
    STOP_RECORDING_BY_IDENTITY_REQUEST_TEMPLATE_ID,
    STOP_RECORDING_REQUEST_TEMPLATE_ID,
    STOP_RECORDING_SUBSCRIPTION_REQUEST_TEMPLATE_ID,
    STOP_REPLAY_REQUEST_TEMPLATE_ID,
    STOP_REPLICATION_REQUEST_TEMPLATE_ID,
    TRUNCATE_RECORDING_REQUEST_TEMPLATE_ID,
};
use crate::enums::{BooleanType, SourceLocation};
use crate::expandable_array_buffer::ExpandableArrayBuffer;
use crate::configuration::{MESSAGE_TIMEOUT_DEFAULT_NS, PROTOCOL_SEMANTIC_VERSION};
use crate::transport::{
    bounded_attempts, deadline_attempts, is_fatal, is_fatal_before_deadline, is_sent,
    AgentInvoker, Clock, IdleStrategy, NoAgentInvoker, Publication, CLOSED,
    MAX_DEADLINE_ATTEMPTS, MAX_POSITION_EXCEEDED, NOT_CONNECTED,
};
use vstd::prelude::*;
use vstd::utf8::encode_utf8;

verus! {

/// Attempts a bounded send makes by default.
pub const DEFAULT_RETRY_ATTEMPTS: i32 = 3;

/// Initial capacity of the scratch buffer.
pub const SCRATCH_BUFFER_CAPACITY: usize = 256;

/// Replay length meaning "up to the recording's end"; also the null value of optional fields.
pub const NULL_VALUE: i32 = -1;

/// The UTF-8 bytes of a string.
pub open spec fn text(s: &String) -> Seq<u8> {
    encode_utf8(s@)
}

/// The deadline `timeout_ns` after a clock reading of `start`, no later than the
/// clock's end; a negative timeout counts as none.
pub open spec fn deadline_after(start: u64, timeout_ns: i64) -> u64 {
    let timeout: int = if timeout_ns < 0 { 0 } else { timeout_ns as int };
    if start + timeout > u64::MAX { u64::MAX } else { (start + timeout) as u64 }
}

/// The wire value of a boolean field.
pub open spec fn boolean_field(b: bool) -> Field {
    Field::I32(if b { 1 } else { 0 })
}

/// The replay request's bytes.
pub open spec fn replay_message(
    recording_id: i64,
    position: i64,
    length: i64,
    replay_channel: &String,
    replay_stream_id: i32,
    correlation_id: i64,
    control_session_id: i64,
    file_io_max_length: i32,
) -> Seq<u8> {
    message_bytes(
        REPLAY_REQUEST_TEMPLATE_ID,
        seq![
            Field::I64(control_session_id),
            Field::I64(correlation_id),
            Field::I64(recording_id),
            Field::I64(position),
            Field::I64(length),
            Field::I32(replay_stream_id),
            Field::I32(file_io_max_length),
        ],
        seq![text(replay_channel)],
    )
}

/// The bounded replay request's bytes.
pub open spec fn bounded_replay_message(
    recording_id: i64,
    position: i64,
    length: i64,
    limit_counter_id: i32,
    replay_channel: &String,
    replay_stream_id: i32,
    correlation_id: i64,
    control_session_id: i64,
    file_io_max_length: i32,
) -> Seq<u8> {
    message_bytes(
        BOUNDED_REPLAY_REQUEST_TEMPLATE_ID,
        seq![
            Field::I64(control_session_id),
            Field::I64(correlation_id),
            Field::I64(recording_id),
            Field::I64(position),
            Field::I64(length),
            Field::I32(limit_counter_id),
            Field::I32(replay_stream_id),
            Field::I32(file_io_max_length),
        ],
        seq![text(replay_channel)],
    )
}

/// Where a replay starts and stops, and how it reads.
#[derive(Clone, Copy, Debug, PartialEq, Eq, Structural)]
pub struct ReplayParams {
    pub position: i64,
    pub length: i64,
    pub bounding_limit_counter_id: i32,
    pub file_io_max_length: i32,
}

impl ReplayParams {
    /// From the recording's start to its end, unbounded, with default reads.
    pub fn new() -> (r: Self)
        ensures
            r == (ReplayParams {
                position: NULL_VALUE as i64,
                length: NULL_VALUE as i64,
                bounding_limit_counter_id: NULL_VALUE,
                file_io_max_length: NULL_VALUE,
            }),
    {
        ReplayParams {
            position: NULL_VALUE as i64,
            length: NULL_VALUE as i64,
            bounding_limit_counter_id: NULL_VALUE,
            file_io_max_length: NULL_VALUE,
        }
    }

    pub open spec fn is_bounded_spec(&self) -> bool {
        self.bounding_limit_counter_id != NULL_VALUE
    }

    /// Whether a counter bounds the replay.
    pub fn is_bounded(&self) -> (r: bool)
        ensures
            r == self.is_bounded_spec(),
    {
        self.bounding_limit_counter_id != NULL_VALUE
    }
}

pub struct ArchiveProxy<P: Publication, I: IdleStrategy, C: Clock> {
    connect_timeout_ns: i64,
    retry_attempts: i32,
    retry_idle_strategy: I,
    nano_clock: C,
    buffer: ExpandableArrayBuffer,
    publication: P,
    encoded_credentials: Vec<u8>,
    /// The message last encoded.
    staged: Ghost<Seq<u8>>,
    /// The last send's attempts: each result, with the clock read after it when
    /// the send had a deadline.
    attempts: Ghost<Seq<(i64, u64)>>,
    /// The deadline of the last send that had one.
    deadline: Ghost<u64>,
}

impl<P: Publication, I: IdleStrategy, C: Clock> ArchiveProxy<P, I, C> {
    pub closed spec fn wf(&self) -> bool {
        &&& self.buffer.wf()
        &&& self.staged@.len() <= self.buffer@.len()
        &&& self.buffer@.subrange(0, self.staged@.len() as int) == self.staged@
    }

    /// The message last encoded, as it stands at the start of the scratch buffer.
    pub closed spec fn staged(&self) -> Seq<u8> {
        self.staged@
    }

    /// The results of the last send's attempts, in order.
    pub closed spec fn results(&self) -> Seq<i64> {
        self.attempts@.map_values(|a: (i64, u64)| a.0)
    }

    /// The last send's attempts with the clock read after each.
    pub closed spec fn timed_attempts(&self) -> Seq<(i64, u64)> {
        self.attempts@
    }

    /// The deadline of the last send that had one.
    pub closed spec fn deadline(&self) -> u64 {
        self.deadline@
    }

    pub closed spec fn retry_attempts_spec(&self) -> i32 {
        self.retry_attempts
    }

    pub closed spec fn connect_timeout_ns_spec(&self) -> i64 {
        self.connect_timeout_ns
    }

    pub closed spec fn credentials(&self) -> Seq<u8> {
        self.encoded_credentials@
    }

    /// What stays the same across sends.
    pub open spec fn same_settings(&self, other: &Self) -> bool {
        &&& self.retry_attempts_spec() == other.retry_attempts_spec()
        &&& self.connect_timeout_ns_spec() == other.connect_timeout_ns_spec()
        &&& self.credentials() == other.credentials()
    }

    /// A bounded send of `message`: it was encoded, offered at most the allowed
    /// number of times, and `sent` says whether it went out.
    pub open spec fn sent_bounded(&self, before: &Self, message: Seq<u8>, sent: bool) -> bool {
        &&& self.wf()
        &&& self.same_settings(before)
        &&& self.staged() == message
        &&& bounded_attempts(self.results(), before.retry_attempts_spec() as int)
        &&& sent == is_sent(self.results().last())
    }

    /// A send of `message` bound by a deadline `timeout` after the clock's first reading.
    pub open spec fn sent_by_deadline(&self, before: &Self, message: Seq<u8>, sent: bool) -> bool {
        &&& self.wf()
        &&& self.same_settings(before)
        &&& self.staged() == message
        &&& self.results() == self.timed_attempts().map_values(|a: (i64, u64)| a.0)
        &&& exists|start: u64| self.deadline() == deadline_after(start, before.connect_timeout_ns_spec())
        &&& deadline_attempts(self.timed_attempts(), self.deadline())
        &&& sent == is_sent(self.results().last())
    }

    pub fn new(publication: P, retry_idle_strategy: I, nano_clock: C) -> (r: Self)
        ensures
            r.wf(),
            r.retry_attempts_spec() == DEFAULT_RETRY_ATTEMPTS,
            r.connect_timeout_ns_spec() == MESSAGE_TIMEOUT_DEFAULT_NS,
            r.credentials() == Seq::<u8>::empty(),
            r.staged() == Seq::<u8>::empty(),
            r.results() == Seq::<i64>::empty(),
            r.timed_attempts() == Seq::<(i64, u64)>::empty(),
            r.scratch_capacity() == SCRATCH_BUFFER_CAPACITY,
            r.publication_spec() == publication,
    {
        Self::with_settings(
            publication,
            MESSAGE_TIMEOUT_DEFAULT_NS,
            DEFAULT_RETRY_ATTEMPTS,
            retry_idle_strategy,
            nano_clock,
            Vec::new(),
        )
    }

    pub fn with_settings(
        publication: P,
        connect_timeout_ns: i64,
        retry_attempts: i32,
        retry_idle_strategy: I,
        nano_clock: C,
        encoded_credentials: Vec<u8>,
    ) -> (r: Self)
        ensures
            r.wf(),
            r.retry_attempts_spec() == retry_attempts,
            r.connect_timeout_ns_spec() == connect_timeout_ns,
            r.credentials() == encoded_credentials@,
            r.staged() == Seq::<u8>::empty(),
            r.results() == Seq::<i64>::empty(),
            r.timed_attempts() == Seq::<(i64, u64)>::empty(),
            r.scratch_capacity() == SCRATCH_BUFFER_CAPACITY,
            r.publication_spec() == publication,
    {
        let buffer = ExpandableArrayBuffer::with_capacity(SCRATCH_BUFFER_CAPACITY);
        let r = ArchiveProxy {
            connect_timeout_ns,
            retry_attempts,
            retry_idle_strategy,
            nano_clock,
            buffer,
            publication,
            encoded_credentials,
            staged: Ghost(Seq::empty()),
            attempts: Ghost(Seq::empty()),
            deadline: Ghost(0),
        };
        assert(r.buffer@.subrange(0, 0) =~= Seq::<u8>::empty());
        assert(r.results() =~= Seq::<i64>::empty());
        r
    }

    /// The publication requests are offered to.
    pub closed spec fn publication_spec(&self) -> P {
        self.publication
    }

    /// The scratch buffer's capacity.
    pub closed spec fn scratch_capacity(&self) -> int {
        self.buffer@.len() as int
    }

    pub fn publication(&self) -> (r: &P)
        ensures
            *r == self.publication_spec(),
    {
        &self.publication
    }

    /// The scratch buffer's capacity.
    pub fn buffer_capacity(&self) -> (r: usize)
        ensures
            r == self.scratch_capacity(),
    {
        self.buffer.capacity()
    }

    /// Encodes a message at the start of the scratch buffer; its length.
    fn stage(&mut self, template_id: u16, fields: &[Field], vars: &[&[u8]]) -> (length: usize)
        requires
            old(self).wf(),
            fields@.len() <= 64,
            fits(views(vars@)),
        ensures
            final(self).wf(),
            final(self).same_settings(old(self)),
            final(self).staged() == message_bytes(template_id, fields@, views(vars@)),
            length == final(self).staged().len(),
            final(self).attempts == old(self).attempts,
    {
        proof {
            lemma_fits(template_id, fields@, views(vars@));
            assert forall|k: int| 0 <= k < vars@.len() implies #[trigger] vars@[k]@.len() <= u32::MAX by {
                assert(views(vars@)[k] == vars@[k]@);
            }
        }
        let message = encode_message(template_id, fields, vars);
        self.buffer.put_bytes(0, message.as_slice());
        self.staged = Ghost(message@);
        proof {
            crate::expandable_array_buffer::lemma_ensured_keeps_contents(
                old(self).buffer@,
                0,
                message@.len() as int,
            );
            assert(self.buffer@.subrange(0, message@.len() as int) =~= message@);
        }
        message.len()
    }

    /// Offers the staged message, retrying while it may yet go out, at most the
    /// allowed number of times.
    fn offer(&mut self, length: usize) -> (sent: bool)
        requires
            old(self).wf(),
            length == old(self).staged().len(),
        ensures
            final(self).sent_bounded(old(self), old(self).staged(), sent),
    {
        self.retry_idle_strategy.reset();
        let mut remaining: i64 = self.retry_attempts as i64;
        self.attempts = Ghost(Seq::empty());
        let ghost allowed: int = if self.retry_attempts < 1 {
            1
        } else {
            self.retry_attempts as int
        };
        loop
            invariant
                self.wf(),
                self.same_settings(old(self)),
                self.staged() == old(self).staged(),
                length == self.staged().len(),
                allowed == (if old(self).retry_attempts_spec() < 1 {
                    1
                } else {
                    old(self).retry_attempts_spec() as int
                }),
                remaining == old(self).retry_attempts_spec() - self.attempts@.len(),
                self.attempts@.len() < allowed,
                self.results().len() == self.attempts@.len(),
                forall|i: int|
                    0 <= i < self.results().len() ==> !is_sent(#[trigger] self.results()[i])
                        && !is_fatal(self.results()[i]),
            decreases allowed - self.attempts@.len(),
        {
            let result = self.publication.offer(self.buffer.as_slice(), 0, length);
            let ghost prev = self.results();
            self.attempts = Ghost(self.attempts@.push((result, 0u64)));
            proof {
                assert(self.results() =~= prev.push(result));
                assert(self.results().drop_last() =~= prev);
            }
            if result > 0 {
                return true;
            }
            if result == CLOSED || result == NOT_CONNECTED || result == MAX_POSITION_EXCEEDED {
                return false;
            }
            remaining = remaining - 1;
            if remaining <= 0 {
                return false;
            }
            self.retry_idle_strategy.idle(0);
        }
    }

    /// Offers the staged message once.
    fn offer_once(&mut self, length: usize) -> (sent: bool)
        requires
            old(self).wf(),
            length == old(self).staged().len(),
        ensures
            final(self).wf(),
            final(self).same_settings(old(self)),
            final(self).staged() == old(self).staged(),
            final(self).results().len() == 1,
            sent == is_sent(final(self).results()[0]),
    {
        let result = self.publication.offer(self.buffer.as_slice(), 0, length);
        self.attempts = Ghost(Seq::empty().push((result, 0u64)));
        proof {
            assert(self.results() =~= seq![result]);
        }
        result > 0
    }

    /// Offers the staged message until it goes out, fails for good, or the
    /// connect timeout has passed; `invoker` runs between attempts.
    fn offer_with_timeout<A: AgentInvoker>(&mut self, length: usize, invoker: &mut A) -> (sent: bool)
        requires
            old(self).wf(),
            length == old(self).staged().len(),
        ensures
            final(self).sent_by_deadline(old(self), old(self).staged(), sent),
    {
        self.retry_idle_strategy.reset();
        let start = self.nano_clock.nano_time();
        let timeout: u64 = if self.connect_timeout_ns < 0 { 0 } else { self.connect_timeout_ns as u64 };
        let deadline: u64 = if start > u64::MAX - timeout { u64::MAX } else { start + timeout };
        self.deadline = Ghost(deadline);
        self.attempts = Ghost(Seq::empty());
        let mut count: u64 = 0;
        loop
            invariant
                self.wf(),
                self.same_settings(old(self)),
                self.staged() == old(self).staged(),
                length == self.staged().len(),
                count as int == self.attempts@.len(),
                count < MAX_DEADLINE_ATTEMPTS,
                self.deadline@ == deadline,
                deadline == deadline_after(start, old(self).connect_timeout_ns_spec()),
                forall|i: int| 0 <= i < self.attempts@.len() ==> {
                    &&& !is_sent((#[trigger] self.attempts@[i]).0)
                    &&& !is_fatal_before_deadline(self.attempts@[i].0)
                    &&& self.attempts@[i].1 <= deadline
                },
            decreases MAX_DEADLINE_ATTEMPTS - count,
        {
            let result = self.publication.offer(self.buffer.as_slice(), 0, length);
            count = count + 1;
            let ghost before = self.attempts@;
            if result > 0 || result == CLOSED || result == MAX_POSITION_EXCEEDED {
                self.attempts = Ghost(self.attempts@.push((result, 0u64)));
                proof {
                    assert(self.results() =~= before.map_values(|a: (i64, u64)| a.0).push(result));
                    assert(self.attempts@.drop_last() =~= before);
                    assert(deadline_attempts(self.timed_attempts(), deadline));
                }
                return result > 0;
            }
            let now = self.nano_clock.nano_time();
            self.attempts = Ghost(self.attempts@.push((result, now)));
            if now > deadline || count == MAX_DEADLINE_ATTEMPTS {
                proof {
                    assert(self.attempts@.drop_last() =~= before);
                    assert(self.results() =~= before.map_values(|a: (i64, u64)| a.0).push(result));
                    assert(deadline_attempts(self.timed_attempts(), deadline));
                }
                return false;
            }
            invoker.invoke();
            self.retry_idle_strategy.idle(0);
        }
    }

    /// Asks to connect, waiting up to the connect timeout for the request to go out.
    pub fn connect(
        &mut self,
        response_channel: String,
        response_stream_id: i32,
        correlation_id: i64,
    ) -> (sent: bool)
        requires
            old(self).wf(),
            fits(seq![
                text(&response_channel),
                old(self).credentials(),
            ]),
        ensures
            final(self).sent_by_deadline(
                old(self),
                message_bytes(
                    AUTH_CONNECT_REQUEST_TEMPLATE_ID,
                    seq![
                        Field::I64(correlation_id),
                        Field::I32(response_stream_id),
                        Field::I32(PROTOCOL_SEMANTIC_VERSION),
                    ],
                    seq![
                        text(&response_channel),
                        old(self).credentials(),
                    ],
                ),
                sent,
            ),
    {
        let credentials = vstd::slice::slice_to_vec(self.encoded_credentials.as_slice());
        let mut fields: Vec<Field> = Vec::new();
        fields.push(Field::I64(correlation_id));
        fields.push(Field::I32(response_stream_id));
        fields.push(Field::I32(PROTOCOL_SEMANTIC_VERSION));
        let mut vars: Vec<&[u8]> = Vec::new();
        vars.push(response_channel.as_str().as_bytes());
        vars.push(credentials.as_slice());
        proof {
            assert(fields@ =~= seq![
                Field::I64(correlation_id),
                Field::I32(response_stream_id),
                Field::I32(PROTOCOL_SEMANTIC_VERSION),
            ]);
            assert(views(vars@) =~= seq![
                text(&response_channel),
                old(self).credentials(),
            ]);
        }
        let length = self.stage(AUTH_CONNECT_REQUEST_TEMPLATE_ID, fields.as_slice(), vars.as_slice());
        self.offer_with_timeout(length, &mut NoAgentInvoker)
    }

    /// Asks to connect with a single attempt.
    pub fn try_connect(
        &mut self,
        response_channel: String,
        response_stream_id: i32,
        correlation_id: i64,
    ) -> (sent: bool)
        requires
            old(self).wf(),
            fits(seq![
                text(&response_channel),
                old(self).credentials(),
            ]),
        ensures
            final(self).wf(),
            final(self).same_settings(old(self)),
            final(self).staged() == message_bytes(
                AUTH_CONNECT_REQUEST_TEMPLATE_ID,
                seq![
                    Field::I64(correlation_id),
                    Field::I32(response_stream_id),
                    Field::I32(PROTOCOL_SEMANTIC_VERSION),
                ],
                seq![
                    text(&response_channel),
                    old(self).credentials(),
                ],
            ),
            final(self).results().len() == 1,
            sent == is_sent(final(self).results()[0]),
    {
        let credentials = vstd::slice::slice_to_vec(self.encoded_credentials.as_slice());
        let mut fields: Vec<Field> = Vec::new();
        fields.push(Field::I64(correlation_id));
        fields.push(Field::I32(response_stream_id));
        fields.push(Field::I32(PROTOCOL_SEMANTIC_VERSION));
        let mut vars: Vec<&[u8]> = Vec::new();
        vars.push(response_channel.as_str().as_bytes());
        vars.push(credentials.as_slice());
        proof {
            assert(fields@ =~= seq![
                Field::I64(correlation_id),
                Field::I32(response_stream_id),
                Field::I32(PROTOCOL_SEMANTIC_VERSION),
            ]);
            assert(views(vars@) =~= seq![
                text(&response_channel),
                old(self).credentials(),
            ]);
        }
        let length = self.stage(AUTH_CONNECT_REQUEST_TEMPLATE_ID, fields.as_slice(), vars.as_slice());
        self.offer_once(length)
    }

    /// Asks to connect, waiting up to the connect timeout and running `aeron_client_invoker` between attempts.
    pub fn connect_with_client_invoker<A: AgentInvoker>(
        &mut self,
        response_channel: String,
        response_stream_id: i32,
        correlation_id: i64,
        aeron_client_invoker: &mut A,
    ) -> (sent: bool)
        requires
            old(self).wf(),
            fits(seq![
                text(&response_channel),
                old(self).credentials(),
            ]),
        ensures
            final(self).sent_by_deadline(
                old(self),
                message_bytes(
                    AUTH_CONNECT_REQUEST_TEMPLATE_ID,
                    seq![
                        Field::I64(correlation_id),
                        Field::I32(response_stream_id),
                        Field::I32(PROTOCOL_SEMANTIC_VERSION),
                    ],
                    seq![
                        text(&response_channel),
                        old(self).credentials(),
                    ],
                ),
                sent,
            ),
    {
        let credentials = vstd::slice::slice_to_vec(self.encoded_credentials.as_slice());
        let mut fields: Vec<Field> = Vec::new();
        fields.push(Field::I64(correlation_id));
        fields.push(Field::I32(response_stream_id));
        fields.push(Field::I32(PROTOCOL_SEMANTIC_VERSION));
        let mut vars: Vec<&[u8]> = Vec::new();
        vars.push(response_channel.as_str().as_bytes());
        vars.push(credentials.as_slice());
        proof {
            assert(fields@ =~= seq![
                Field::I64(correlation_id),
                Field::I32(response_stream_id),
                Field::I32(PROTOCOL_SEMANTIC_VERSION),
            ]);
            assert(views(vars@) =~= seq![
                text(&response_channel),
                old(self).credentials(),
            ]);
        }
        let length = self.stage(AUTH_CONNECT_REQUEST_TEMPLATE_ID, fields.as_slice(), vars.as_slice());
        self.offer_with_timeout(length, aeron_client_invoker)
    }

    /// Keeps the control session alive.
    pub fn keep_alive(
        &mut self,
        control_session_id: i64,
        correlation_id: i64,
    ) -> (sent: bool)
        requires
            old(self).wf(),
        ensures
            final(self).sent_bounded(
                old(self),
                message_bytes(
                    KEEP_ALIVE_REQUEST_TEMPLATE_ID,
                    seq![
                        Field::I64(control_session_id),
                        Field::I64(correlation_id),
                    ],
                    seq![],
                ),
                sent,
            ),
    {
        let mut fields: Vec<Field> = Vec::new();
        fields.push(Field::I64(control_session_id));
        fields.push(Field::I64(correlation_id));
        let vars: Vec<&[u8]> = Vec::new();
        proof {
            assert(fields@ =~= seq![
                Field::I64(control_session_id),
                Field::I64(correlation_id),
            ]);
            assert(views(vars@) =~= seq![]);
        }
        let length = self.stage(KEEP_ALIVE_REQUEST_TEMPLATE_ID, fields.as_slice(), vars.as_slice());
        self.offer(length)
    }

    /// Closes the control session.
    pub fn close_session(
        &mut self,
        control_session_id: i64,
    ) -> (sent: bool)
        requires
            old(self).wf(),
        ensures
            final(self).sent_bounded(
                old(self),
                message_bytes(
                    CLOSE_SESSION_REQUEST_TEMPLATE_ID,
                    seq![
                        Field::I64(control_session_id),
                    ],
                    seq![],
                ),
                sent,
            ),
    {
        let mut fields: Vec<Field> = Vec::new();
        fields.push(Field::I64(control_session_id));
        let vars: Vec<&[u8]> = Vec::new();
        proof {
            assert(fields@ =~= seq![
                Field::I64(control_session_id),
            ]);
            assert(views(vars@) =~= seq![]);
        }
        let length = self.stage(CLOSE_SESSION_REQUEST_TEMPLATE_ID, fields.as_slice(), vars.as_slice());
        self.offer(length)
    }

    /// Answers an authentication challenge with a single attempt.
    pub fn try_challenge_response(
        &mut self,
        encoded_credentials: &[u8],
        correlation_id: i64,
        control_session_id: i64,
    ) -> (sent: bool)
        requires
            old(self).wf(),
            fits(seq![
                encoded_credentials@,
            ]),
        ensures
            final(self).wf(),
            final(self).same_settings(old(self)),
            final(self).staged() == message_bytes(
                CHALLENGE_RESPONSE_TEMPLATE_ID,
                seq![
                    Field::I64(control_session_id),
                    Field::I64(correlation_id),
                ],
                seq![
                    encoded_credentials@,
                ],
            ),
            final(self).results().len() == 1,
            sent == is_sent(final(self).results()[0]),
    {
        let mut fields: Vec<Field> = Vec::new();
        fields.push(Field::I64(control_session_id));
        fields.push(Field::I64(correlation_id));
        let mut vars: Vec<&[u8]> = Vec::new();
        vars.push(encoded_credentials);
        proof {
            assert(fields@ =~= seq![
                Field::I64(control_session_id),
                Field::I64(correlation_id),
            ]);
            assert(views(vars@) =~= seq![
                encoded_credentials@,
            ]);
        }
        let length = self.stage(CHALLENGE_RESPONSE_TEMPLATE_ID, fields.as_slice(), vars.as_slice());
        self.offer_once(length)
    }

    /// Starts recording a channel and stream.
    pub fn start_recording(
        &mut self,
        channel: String,
        stream_id: i32,
        source_location: SourceLocation,
        correlation_id: i64,
        control_session_id: i64,
    ) -> (sent: bool)
        requires
            old(self).wf(),
            fits(seq![
                text(&channel),
            ]),
        ensures
            final(self).sent_bounded(
                old(self),
                message_bytes(
                    START_RECORDING_REQUEST_TEMPLATE_ID,
                    seq![
                        Field::I64(control_session_id),
                        Field::I64(correlation_id),
                        Field::I32(stream_id),
                        Field::I32(source_location.spec_value()),
                    ],
                    seq![
                        text(&channel),
                    ],
                ),
                sent,
            ),
    {
        let mut fields: Vec<Field> = Vec::new();
        fields.push(Field::I64(control_session_id));
        fields.push(Field::I64(correlation_id));
        fields.push(Field::I32(stream_id));
        fields.push(Field::I32(source_location.value()));
        let mut vars: Vec<&[u8]> = Vec::new();
        vars.push(channel.as_str().as_bytes());
        proof {
            assert(fields@ =~= seq![
                Field::I64(control_session_id),
                Field::I64(correlation_id),
                Field::I32(stream_id),
                Field::I32(source_location.spec_value()),
            ]);
            assert(views(vars@) =~= seq![
                text(&channel),
            ]);
        }
        let length = self.stage(START_RECORDING_REQUEST_TEMPLATE_ID, fields.as_slice(), vars.as_slice());
        self.offer(length)
    }

    /// Starts recording a channel and stream, stopping when the image goes away if `auto_stop`.
    pub fn start_recording_2(
        &mut self,
        channel: String,
        stream_id: i32,
        source_location: SourceLocation,
        auto_stop: bool,
        correlation_id: i64,
        control_session_id: i64,
    ) -> (sent: bool)
        requires
            old(self).wf(),
            fits(seq![
                text(&channel),
            ]),
        ensures
            final(self).sent_bounded(
                old(self),
                message_bytes(
                    START_RECORDING_REQUEST_2_TEMPLATE_ID,
                    seq![
                        Field::I64(control_session_id),
                        Field::I64(correlation_id),
                        Field::I32(stream_id),
                        Field::I32(source_location.spec_value()),
                        boolean_field(auto_stop),
                    ],
                    seq![
                        text(&channel),
                    ],
                ),
                sent,
            ),
    {
        let mut fields: Vec<Field> = Vec::new();
        fields.push(Field::I64(control_session_id));
        fields.push(Field::I64(correlation_id));
        fields.push(Field::I32(stream_id));
        fields.push(Field::I32(source_location.value()));
        fields.push(Field::I32(BooleanType::of_bool(auto_stop).value()));
        let mut vars: Vec<&[u8]> = Vec::new();
        vars.push(channel.as_str().as_bytes());
        proof {
            assert(fields@ =~= seq![
                Field::I64(control_session_id),
                Field::I64(correlation_id),
                Field::I32(stream_id),
                Field::I32(source_location.spec_value()),
                boolean_field(auto_stop),
            ]);
            assert(views(vars@) =~= seq![
                text(&channel),
            ]);
        }
        let length = self.stage(START_RECORDING_REQUEST_2_TEMPLATE_ID, fields.as_slice(), vars.as_slice());
        self.offer(length)
    }

    /// Stops recording a channel and stream.
    pub fn stop_recording(
        &mut self,
        channel: String,
        stream_id: i32,
        correlation_id: i64,
        control_session_id: i64,
    ) -> (sent: bool)
        requires
            old(self).wf(),
            fits(seq![
                text(&channel),
            ]),
        ensures
            final(self).sent_bounded(
                old(self),
                message_bytes(
                    STOP_RECORDING_REQUEST_TEMPLATE_ID,
                    seq![
                        Field::I64(control_session_id),
                        Field::I64(correlation_id),
                        Field::I32(stream_id),
                    ],
                    seq![
                        text(&channel),
                    ],
                ),
                sent,
            ),
    {
        let mut fields: Vec<Field> = Vec::new();
        fields.push(Field::I64(control_session_id));
        fields.push(Field::I64(correlation_id));
        fields.push(Field::I32(stream_id));
        let mut vars: Vec<&[u8]> = Vec::new();
        vars.push(channel.as_str().as_bytes());
        proof {
            assert(fields@ =~= seq![
                Field::I64(control_session_id),
                Field::I64(correlation_id),
                Field::I32(stream_id),
            ]);
            assert(views(vars@) =~= seq![
                text(&channel),
            ]);
        }
        let length = self.stage(STOP_RECORDING_REQUEST_TEMPLATE_ID, fields.as_slice(), vars.as_slice());
        self.offer(length)
    }

    /// Stops the recording made through a subscription.
    pub fn stop_recording_subscription(
        &mut self,
        subscription_id: i64,
        correlation_id: i64,
        control_session_id: i64,
    ) -> (sent: bool)
        requires
            old(self).wf(),
        ensures
            final(self).sent_bounded(
                old(self),
                message_bytes(
                    STOP_RECORDING_SUBSCRIPTION_REQUEST_TEMPLATE_ID,
                    seq![
                        Field::I64(control_session_id),
                        Field::I64(correlation_id),
                        Field::I64(subscription_id),
                    ],
                    seq![],
                ),
                sent,
            ),
    {
        let mut fields: Vec<Field> = Vec::new();
        fields.push(Field::I64(control_session_id));
        fields.push(Field::I64(correlation_id));
        fields.push(Field::I64(subscription_id));
        let vars: Vec<&[u8]> = Vec::new();
        proof {
            assert(fields@ =~= seq![
                Field::I64(control_session_id),
                Field::I64(correlation_id),
                Field::I64(subscription_id),
            ]);
            assert(views(vars@) =~= seq![]);
        }
        let length = self.stage(STOP_RECORDING_SUBSCRIPTION_REQUEST_TEMPLATE_ID, fields.as_slice(), vars.as_slice());
        self.offer(length)
    }

    /// Stops a recording by its id.
    pub fn stop_recording_by_identity(
        &mut self,
        recording_id: i64,
        correlation_id: i64,
        control_session_id: i64,
    ) -> (sent: bool)
        requires
            old(self).wf(),
        ensures
            final(self).sent_bounded(
                old(self),
                message_bytes(
                    STOP_RECORDING_BY_IDENTITY_REQUEST_TEMPLATE_ID,
                    seq![
                        Field::I64(control_session_id),
                        Field::I64(correlation_id),
                        Field::I64(recording_id),
                    ],
                    seq![],
                ),
                sent,
            ),
    {
        let mut fields: Vec<Field> = Vec::new();
        fields.push(Field::I64(control_session_id));
        fields.push(Field::I64(correlation_id));
        fields.push(Field::I64(recording_id));
        let vars: Vec<&[u8]> = Vec::new();
        proof {
            assert(fields@ =~= seq![
                Field::I64(control_session_id),
                Field::I64(correlation_id),
                Field::I64(recording_id),
            ]);
            assert(views(vars@) =~= seq![]);
        }
        let length = self.stage(STOP_RECORDING_BY_IDENTITY_REQUEST_TEMPLATE_ID, fields.as_slice(), vars.as_slice());
        self.offer(length)
    }

    /// Replays a recording from `position` for `length` bytes, reading at most `file_io_max_length` bytes at a time.
    pub fn replay(
        &mut self,
        recording_id: i64,
        position: i64,
        length: i64,
        replay_channel: String,
        replay_stream_id: i32,
        correlation_id: i64,
        control_session_id: i64,
        file_io_max_length: i32,
    ) -> (sent: bool)
        requires
            old(self).wf(),
            fits(seq![
                text(&replay_channel),
            ]),
        ensures
            final(self).sent_bounded(
                old(self),
                message_bytes(
                    REPLAY_REQUEST_TEMPLATE_ID,
                    seq![
                        Field::I64(control_session_id),
                        Field::I64(correlation_id),
                        Field::I64(recording_id),
                        Field::I64(position),
                        Field::I64(length),
                        Field::I32(replay_stream_id),
                        Field::I32(file_io_max_length),
                    ],
                    seq![
                        text(&replay_channel),
                    ],
                ),
                sent,
            ),
    {
        let mut fields: Vec<Field> = Vec::new();
        fields.push(Field::I64(control_session_id));
        fields.push(Field::I64(correlation_id));
        fields.push(Field::I64(recording_id));
        fields.push(Field::I64(position));
        fields.push(Field::I64(length));
        fields.push(Field::I32(replay_stream_id));
        fields.push(Field::I32(file_io_max_length));
        let mut vars: Vec<&[u8]> = Vec::new();
        vars.push(replay_channel.as_str().as_bytes());
        proof {
            assert(fields@ =~= seq![
                Field::I64(control_session_id),
                Field::I64(correlation_id),
                Field::I64(recording_id),
                Field::I64(position),
                Field::I64(length),
                Field::I32(replay_stream_id),
                Field::I32(file_io_max_length),
            ]);
            assert(views(vars@) =~= seq![
                text(&replay_channel),
            ]);
        }
        let length = self.stage(REPLAY_REQUEST_TEMPLATE_ID, fields.as_slice(), vars.as_slice());
        self.offer(length)
    }

    /// Stops a replay session.
    pub fn stop_replay(
        &mut self,
        replay_session_id: i64,
        correlation_id: i64,
        control_session_id: i64,
    ) -> (sent: bool)
        requires
            old(self).wf(),
        ensures
            final(self).sent_bounded(
                old(self),
                message_bytes(
                    STOP_REPLAY_REQUEST_TEMPLATE_ID,
                    seq![
                        Field::I64(control_session_id),
                        Field::I64(correlation_id),
                        Field::I64(replay_session_id),
                    ],
                    seq![],
                ),
                sent,
            ),
    {
        let mut fields: Vec<Field> = Vec::new();
        fields.push(Field::I64(control_session_id));
        fields.push(Field::I64(correlation_id));
        fields.push(Field::I64(replay_session_id));
        let vars: Vec<&[u8]> = Vec::new();
        proof {
            assert(fields@ =~= seq![
                Field::I64(control_session_id),
                Field::I64(correlation_id),
                Field::I64(replay_session_id),
            ]);
            assert(views(vars@) =~= seq![]);
        }
        let length = self.stage(STOP_REPLAY_REQUEST_TEMPLATE_ID, fields.as_slice(), vars.as_slice());
        self.offer(length)
    }

    /// Stops every replay of a recording.
    pub fn stop_all_replays(
        &mut self,
        recording_id: i64,
        correlation_id: i64,
        control_session_id: i64,
    ) -> (sent: bool)
        requires
            old(self).wf(),
        ensures
            final(self).sent_bounded(
                old(self),
                message_bytes(
                    STOP_ALL_REPLAYS_REQUEST_TEMPLATE_ID,
                    seq![
                        Field::I64(control_session_id),
                        Field::I64(correlation_id),
                        Field::I64(recording_id),
                    ],
                    seq![],
                ),
                sent,
            ),
    {
        let mut fields: Vec<Field> = Vec::new();
        fields.push(Field::I64(control_session_id));
        fields.push(Field::I64(correlation_id));
        fields.push(Field::I64(recording_id));
        let vars: Vec<&[u8]> = Vec::new();
        proof {
            assert(fields@ =~= seq![
                Field::I64(control_session_id),
                Field::I64(correlation_id),
                Field::I64(recording_id),
            ]);
            assert(views(vars@) =~= seq![]);
        }
        let length = self.stage(STOP_ALL_REPLAYS_REQUEST_TEMPLATE_ID, fields.as_slice(), vars.as_slice());
        self.offer(length)
    }

    /// Lists up to `record_count` recordings from `from_recording_id`.
    pub fn list_recordings(
        &mut self,
        from_recording_id: i64,
        record_count: i32,
        correlation_id: i64,
        control_session_id: i64,
    ) -> (sent: bool)
        requires
            old(self).wf(),
        ensures
            final(self).sent_bounded(
                old(self),
                message_bytes(
                    LIST_RECORDINGS_REQUEST_TEMPLATE_ID,
                    seq![
                        Field::I64(control_session_id),
                        Field::I64(correlation_id),
                        Field::I64(from_recording_id),
                        Field::I32(record_count),
                    ],
                    seq![],
                ),
                sent,
            ),
    {
        let mut fields: Vec<Field> = Vec::new();
        fields.push(Field::I64(control_session_id));
        fields.push(Field::I64(correlation_id));
        fields.push(Field::I64(from_recording_id));
        fields.push(Field::I32(record_count));
        let vars: Vec<&[u8]> = Vec::new();
        proof {
            assert(fields@ =~= seq![
                Field::I64(control_session_id),
                Field::I64(correlation_id),
                Field::I64(from_recording_id),
                Field::I32(record_count),
            ]);
            assert(views(vars@) =~= seq![]);
        }
        let length = self.stage(LIST_RECORDINGS_REQUEST_TEMPLATE_ID, fields.as_slice(), vars.as_slice());
        self.offer(length)
    }

    /// Lists up to `record_count` recordings of a channel and stream from `from_recording_id`.
    pub fn list_recordings_for_uri(
        &mut self,
        from_recording_id: i64,
        record_count: i32,
        channel_fragment: String,
        stream_id: i32,
        correlation_id: i64,
        control_session_id: i64,
    ) -> (sent: bool)
        requires
            old(self).wf(),
            fits(seq![
                text(&channel_fragment),
            ]),
        ensures
            final(self).sent_bounded(
                old(self),
                message_bytes(
                    LIST_RECORDINGS_FOR_URI_REQUEST_TEMPLATE_ID,
                    seq![
                        Field::I64(control_session_id),
                        Field::I64(correlation_id),
                        Field::I64(from_recording_id),
                        Field::I32(record_count),
                        Field::I32(stream_id),
                    ],
                    seq![
                        text(&channel_fragment),
                    ],
                ),
                sent,
            ),
    {
        let mut fields: Vec<Field> = Vec::new();
        fields.push(Field::I64(control_session_id));
        fields.push(Field::I64(correlation_id));
        fields.push(Field::I64(from_recording_id));
        fields.push(Field::I32(record_count));
        fields.push(Field::I32(stream_id));
        let mut vars: Vec<&[u8]> = Vec::new();
        vars.push(channel_fragment.as_str().as_bytes());
        proof {
            assert(fields@ =~= seq![
                Field::I64(control_session_id),
                Field::I64(correlation_id),
                Field::I64(from_recording_id),
                Field::I32(record_count),
                Field::I32(stream_id),
            ]);
            assert(views(vars@) =~= seq![
                text(&channel_fragment),
            ]);
        }
        let length = self.stage(LIST_RECORDINGS_FOR_URI_REQUEST_TEMPLATE_ID, fields.as_slice(), vars.as_slice());
        self.offer(length)
    }

    /// Asks for one recording's descriptor.
    pub fn list_recording(
        &mut self,
        recording_id: i64,
        correlation_id: i64,
        control_session_id: i64,
    ) -> (sent: bool)
        requires
            old(self).wf(),
        ensures
            final(self).sent_bounded(
                old(self),
                message_bytes(
                    LIST_RECORDING_REQUEST_TEMPLATE_ID,
                    seq![
                        Field::I64(control_session_id),
                        Field::I64(correlation_id),
                        Field::I64(recording_id),
                    ],
                    seq![],
                ),
                sent,
            ),
    {
        let mut fields: Vec<Field> = Vec::new();
        fields.push(Field::I64(control_session_id));
        fields.push(Field::I64(correlation_id));
        fields.push(Field::I64(recording_id));
        let vars: Vec<&[u8]> = Vec::new();
        proof {
            assert(fields@ =~= seq![
                Field::I64(control_session_id),
                Field::I64(correlation_id),
                Field::I64(recording_id),
            ]);
            assert(views(vars@) =~= seq![]);
        }
        let length = self.stage(LIST_RECORDING_REQUEST_TEMPLATE_ID, fields.as_slice(), vars.as_slice());
        self.offer(length)
    }

    /// Extends an existing recording with a channel and stream.
    pub fn extend_recording(
        &mut self,
        channel: String,
        stream_id: i32,
        source_location: SourceLocation,
        recording_id: i64,
        correlation_id: i64,
        control_session_id: i64,
    ) -> (sent: bool)
        requires
            old(self).wf(),
            fits(seq![
                text(&channel),
            ]),
        ensures
            final(self).sent_bounded(
                old(self),
                message_bytes(
                    EXTEND_RECORDING_REQUEST_TEMPLATE_ID,
                    seq![
                        Field::I64(control_session_id),
                        Field::I64(correlation_id),
                        Field::I64(recording_id),
                        Field::I32(stream_id),
                        Field::I32(source_location.spec_value()),
                    ],
                    seq![
                        text(&channel),
                    ],
                ),
                sent,
            ),
    {
        let mut fields: Vec<Field> = Vec::new();
        fields.push(Field::I64(control_session_id));
        fields.push(Field::I64(correlation_id));
        fields.push(Field::I64(recording_id));
        fields.push(Field::I32(stream_id));
        fields.push(Field::I32(source_location.value()));
        let mut vars: Vec<&[u8]> = Vec::new();
        vars.push(channel.as_str().as_bytes());
        proof {
            assert(fields@ =~= seq![
                Field::I64(control_session_id),
                Field::I64(correlation_id),
                Field::I64(recording_id),
                Field::I32(stream_id),
                Field::I32(source_location.spec_value()),
            ]);
            assert(views(vars@) =~= seq![
                text(&channel),
            ]);
        }
        let length = self.stage(EXTEND_RECORDING_REQUEST_TEMPLATE_ID, fields.as_slice(), vars.as_slice());
        self.offer(length)
    }

    /// Extends an existing recording, stopping when the image goes away if `auto_stop`.
    pub fn extend_recording_2(
        &mut self,
        channel: String,
        stream_id: i32,
        source_location: SourceLocation,
        auto_stop: bool,
        recording_id: i64,
        correlation_id: i64,
        control_session_id: i64,
    ) -> (sent: bool)
        requires
            old(self).wf(),
            fits(seq![
                text(&channel),
            ]),
        ensures
            final(self).sent_bounded(
                old(self),
                message_bytes(
                    EXTEND_RECORDING_REQUEST_2_TEMPLATE_ID,
                    seq![
                        Field::I64(control_session_id),
                        Field::I64(correlation_id),
                        Field::I64(recording_id),
                        Field::I32(stream_id),
                        Field::I32(source_location.spec_value()),
                        boolean_field(auto_stop),
                    ],
                    seq![
                        text(&channel),
                    ],
                ),
                sent,
            ),
    {
        let mut fields: Vec<Field> = Vec::new();
        fields.push(Field::I64(control_session_id));
        fields.push(Field::I64(correlation_id));
        fields.push(Field::I64(recording_id));
        fields.push(Field::I32(stream_id));
        fields.push(Field::I32(source_location.value()));
        fields.push(Field::I32(BooleanType::of_bool(auto_stop).value()));
        let mut vars: Vec<&[u8]> = Vec::new();
        vars.push(channel.as_str().as_bytes());
        proof {
            assert(fields@ =~= seq![
                Field::I64(control_session_id),
                Field::I64(correlation_id),
                Field::I64(recording_id),
                Field::I32(stream_id),
                Field::I32(source_location.spec_value()),
                boolean_field(auto_stop),
            ]);
            assert(views(vars@) =~= seq![
                text(&channel),
            ]);
        }
        let length = self.stage(EXTEND_RECORDING_REQUEST_2_TEMPLATE_ID, fields.as_slice(), vars.as_slice());
        self.offer(length)
    }

    /// Asks for the position an active recording has reached.
    pub fn get_recording_position(
        &mut self,
        recording_id: i64,
        correlation_id: i64,
        control_session_id: i64,
    ) -> (sent: bool)
        requires
            old(self).wf(),
        ensures
            final(self).sent_bounded(
                old(self),
                message_bytes(
                    RECORDING_POSITION_REQUEST_TEMPLATE_ID,
                    seq![
                        Field::I64(control_session_id),
                        Field::I64(correlation_id),
                        Field::I64(recording_id),
                    ],
                    seq![],
                ),
                sent,
            ),
    {
        let mut fields: Vec<Field> = Vec::new();
        fields.push(Field::I64(control_session_id));
        fields.push(Field::I64(correlation_id));
        fields.push(Field::I64(recording_id));
        let vars: Vec<&[u8]> = Vec::new();
        proof {
            assert(fields@ =~= seq![
                Field::I64(control_session_id),
                Field::I64(correlation_id),
                Field::I64(recording_id),
            ]);
            assert(views(vars@) =~= seq![]);
        }
        let length = self.stage(RECORDING_POSITION_REQUEST_TEMPLATE_ID, fields.as_slice(), vars.as_slice());
        self.offer(length)
    }

    /// Truncates a stopped recording to `position`.
    pub fn truncate_recording(
        &mut self,
        recording_id: i64,
        position: i64,
        correlation_id: i64,
        control_session_id: i64,
    ) -> (sent: bool)
        requires
            old(self).wf(),
        ensures
            final(self).sent_bounded(
                old(self),
                message_bytes(
                    TRUNCATE_RECORDING_REQUEST_TEMPLATE_ID,
                    seq![
                        Field::I64(control_session_id),
                        Field::I64(correlation_id),
                        Field::I64(recording_id),
                        Field::I64(position),
                    ],
                    seq![],
                ),
                sent,
            ),
    {
        let mut fields: Vec<Field> = Vec::new();
        fields.push(Field::I64(control_session_id));
        fields.push(Field::I64(correlation_id));
        fields.push(Field::I64(recording_id));
        fields.push(Field::I64(position));
        let vars: Vec<&[u8]> = Vec::new();
        proof {
            assert(fields@ =~= seq![
                Field::I64(control_session_id),
                Field::I64(correlation_id),
                Field::I64(recording_id),
                Field::I64(position),
            ]);
            assert(views(vars@) =~= seq![]);
        }
        let length = self.stage(TRUNCATE_RECORDING_REQUEST_TEMPLATE_ID, fields.as_slice(), vars.as_slice());
        self.offer(length)
    }

    /// Deletes a stopped recording and its files.
    pub fn purge_recording(
        &mut self,
        recording_id: i64,
        correlation_id: i64,
        control_session_id: i64,
    ) -> (sent: bool)
        requires
            old(self).wf(),
        ensures
            final(self).sent_bounded(
                old(self),
                message_bytes(
                    PURGE_RECORDING_REQUEST_TEMPLATE_ID,
                    seq![
                        Field::I64(control_session_id),
                        Field::I64(correlation_id),
                        Field::I64(recording_id),
                    ],
                    seq![],
                ),
                sent,
            ),
    {
        let mut fields: Vec<Field> = Vec::new();
        fields.push(Field::I64(control_session_id));
        fields.push(Field::I64(correlation_id));
        fields.push(Field::I64(recording_id));
        let vars: Vec<&[u8]> = Vec::new();
        proof {
            assert(fields@ =~= seq![
                Field::I64(control_session_id),
                Field::I64(correlation_id),
                Field::I64(recording_id),
            ]);
            assert(views(vars@) =~= seq![]);
        }
        let length = self.stage(PURGE_RECORDING_REQUEST_TEMPLATE_ID, fields.as_slice(), vars.as_slice());
        self.offer(length)
    }

    /// Asks for a recording's start position.
    pub fn get_start_position(
        &mut self,
        recording_id: i64,
        correlation_id: i64,
        control_session_id: i64,
    ) -> (sent: bool)
        requires
            old(self).wf(),
        ensures
            final(self).sent_bounded(
                old(self),
                message_bytes(
                    START_POSITION_REQUEST_TEMPLATE_ID,
                    seq![
                        Field::I64(control_session_id),
                        Field::I64(correlation_id),
                        Field::I64(recording_id),
                    ],
                    seq![],
                ),
                sent,
            ),
    {
        let mut fields: Vec<Field> = Vec::new();
        fields.push(Field::I64(control_session_id));
        fields.push(Field::I64(correlation_id));
        fields.push(Field::I64(recording_id));
        let vars: Vec<&[u8]> = Vec::new();
        proof {
            assert(fields@ =~= seq![
                Field::I64(control_session_id),
                Field::I64(correlation_id),
                Field::I64(recording_id),
            ]);
            assert(views(vars@) =~= seq![]);
        }
        let length = self.stage(START_POSITION_REQUEST_TEMPLATE_ID, fields.as_slice(), vars.as_slice());
        self.offer(length)
    }

    /// Asks for a recording's stop position.
    pub fn get_stop_position(
        &mut self,
        recording_id: i64,
        correlation_id: i64,
        control_session_id: i64,
    ) -> (sent: bool)
        requires
            old(self).wf(),
        ensures
            final(self).sent_bounded(
                old(self),
                message_bytes(
                    STOP_POSITION_REQUEST_TEMPLATE_ID,
                    seq![
                        Field::I64(control_session_id),
                        Field::I64(correlation_id),
                        Field::I64(recording_id),
                    ],
                    seq![],
                ),
                sent,
            ),
    {
        let mut fields: Vec<Field> = Vec::new();
        fields.push(Field::I64(control_session_id));
        fields.push(Field::I64(correlation_id));
        fields.push(Field::I64(recording_id));
        let vars: Vec<&[u8]> = Vec::new();
        proof {
            assert(fields@ =~= seq![
                Field::I64(control_session_id),
                Field::I64(correlation_id),
                Field::I64(recording_id),
            ]);
            assert(views(vars@) =~= seq![]);
        }
        let length = self.stage(STOP_POSITION_REQUEST_TEMPLATE_ID, fields.as_slice(), vars.as_slice());
        self.offer(length)
    }

    /// Looks for the last recording of a channel, stream and session from `min_recording_id`.
    pub fn find_last_matching_recording(
        &mut self,
        min_recording_id: i64,
        channel_fragment: String,
        stream_id: i32,
        session_id: i32,
        correlation_id: i64,
        control_session_id: i64,
    ) -> (sent: bool)
        requires
            old(self).wf(),
            fits(seq![
                text(&channel_fragment),
            ]),
        ensures
            final(self).sent_bounded(
                old(self),
                message_bytes(
                    FIND_LAST_MATCHING_RECORDING_REQUEST_TEMPLATE_ID,
                    seq![
                        Field::I64(control_session_id),
                        Field::I64(correlation_id),
                        Field::I64(min_recording_id),
                        Field::I32(session_id),
                        Field::I32(stream_id),
                    ],
                    seq![
                        text(&channel_fragment),
                    ],
                ),
                sent,
            ),
    {
        let mut fields: Vec<Field> = Vec::new();
        fields.push(Field::I64(control_session_id));
        fields.push(Field::I64(correlation_id));
        fields.push(Field::I64(min_recording_id));
        fields.push(Field::I32(session_id));
        fields.push(Field::I32(stream_id));
        let mut vars: Vec<&[u8]> = Vec::new();
        vars.push(channel_fragment.as_str().as_bytes());
        proof {
            assert(fields@ =~= seq![
                Field::I64(control_session_id),
                Field::I64(correlation_id),
                Field::I64(min_recording_id),
                Field::I32(session_id),
                Field::I32(stream_id),
            ]);
            assert(views(vars@) =~= seq![
                text(&channel_fragment),
            ]);
        }
        let length = self.stage(FIND_LAST_MATCHING_RECORDING_REQUEST_TEMPLATE_ID, fields.as_slice(), vars.as_slice());
        self.offer(length)
    }

    /// Lists up to `subscription_count` recording subscriptions from `pseudo_index`, of a stream only if `apply_stream_id`.
    pub fn list_recording_subscriptions(
        &mut self,
        pseudo_index: i32,
        subscription_count: i32,
        channel_fragment: String,
        stream_id: i32,
        apply_stream_id: bool,
        correlation_id: i64,
        control_session_id: i64,
    ) -> (sent: bool)
        requires
            old(self).wf(),
            fits(seq![
                text(&channel_fragment),
            ]),
        ensures
            final(self).sent_bounded(
                old(self),
                message_bytes(
                    LIST_RECORDING_SUBSCRIPTIONS_REQUEST_TEMPLATE_ID,
                    seq![
                        Field::I64(control_session_id),
                        Field::I64(correlation_id),
                        Field::I32(pseudo_index),
                        Field::I32(subscription_count),
                        boolean_field(apply_stream_id),
                        Field::I32(stream_id),
                    ],
                    seq![
                        text(&channel_fragment),
                    ],
                ),
                sent,
            ),
    {
        let mut fields: Vec<Field> = Vec::new();
        fields.push(Field::I64(control_session_id));
        fields.push(Field::I64(correlation_id));
        fields.push(Field::I32(pseudo_index));
        fields.push(Field::I32(subscription_count));
        fields.push(Field::I32(BooleanType::of_bool(apply_stream_id).value()));
        fields.push(Field::I32(stream_id));
        let mut vars: Vec<&[u8]> = Vec::new();
        vars.push(channel_fragment.as_str().as_bytes());
        proof {
            assert(fields@ =~= seq![
                Field::I64(control_session_id),
                Field::I64(correlation_id),
                Field::I32(pseudo_index),
                Field::I32(subscription_count),
                boolean_field(apply_stream_id),
                Field::I32(stream_id),
            ]);
            assert(views(vars@) =~= seq![
                text(&channel_fragment),
            ]);
        }
        let length = self.stage(LIST_RECORDING_SUBSCRIPTIONS_REQUEST_TEMPLATE_ID, fields.as_slice(), vars.as_slice());
        self.offer(length)
    }

    /// Stops a replication.
    pub fn stop_replication(
        &mut self,
        replication_id: i64,
        correlation_id: i64,
        control_session_id: i64,
    ) -> (sent: bool)
        requires
            old(self).wf(),
        ensures
            final(self).sent_bounded(
                old(self),
                message_bytes(
                    STOP_REPLICATION_REQUEST_TEMPLATE_ID,
                    seq![
                        Field::I64(control_session_id),
                        Field::I64(correlation_id),
                        Field::I64(replication_id),
                    ],
                    seq![],
                ),
                sent,
            ),
    {
        let mut fields: Vec<Field> = Vec::new();
        fields.push(Field::I64(control_session_id));
        fields.push(Field::I64(correlation_id));
        fields.push(Field::I64(replication_id));
        let vars: Vec<&[u8]> = Vec::new();
        proof {
            assert(fields@ =~= seq![
                Field::I64(control_session_id),
                Field::I64(correlation_id),
                Field::I64(replication_id),
            ]);
            assert(views(vars@) =~= seq![]);
        }
        let length = self.stage(STOP_REPLICATION_REQUEST_TEMPLATE_ID, fields.as_slice(), vars.as_slice());
        self.offer(length)
    }

    /// Detaches the segments of a recording before `new_start_position`.
    pub fn detach_segments(
        &mut self,
        recording_id: i64,
        new_start_position: i64,
        correlation_id: i64,
        control_session_id: i64,
    ) -> (sent: bool)
        requires
            old(self).wf(),
        ensures
            final(self).sent_bounded(
                old(self),
                message_bytes(
                    DETACH_SEGMENTS_REQUEST_TEMPLATE_ID,
                    seq![
                        Field::I64(control_session_id),
                        Field::I64(correlation_id),
                        Field::I64(recording_id),
                        Field::I64(new_start_position),
                    ],
                    seq![],
                ),
                sent,
            ),
    {
        let mut fields: Vec<Field> = Vec::new();
        fields.push(Field::I64(control_session_id));
        fields.push(Field::I64(correlation_id));
        fields.push(Field::I64(recording_id));
        fields.push(Field::I64(new_start_position));
        let vars: Vec<&[u8]> = Vec::new();
        proof {
            assert(fields@ =~= seq![
                Field::I64(control_session_id),
                Field::I64(correlation_id),
                Field::I64(recording_id),
                Field::I64(new_start_position),
            ]);
            assert(views(vars@) =~= seq![]);
        }
        let length = self.stage(DETACH_SEGMENTS_REQUEST_TEMPLATE_ID, fields.as_slice(), vars.as_slice());
        self.offer(length)
    }

    /// Deletes a recording's detached segments.
    pub fn delete_detached_segments(
        &mut self,
        recording_id: i64,
        correlation_id: i64,
        control_session_id: i64,
    ) -> (sent: bool)
        requires
            old(self).wf(),
        ensures
            final(self).sent_bounded(
                old(self),
                message_bytes(
                    DELETE_DETACHED_SEGMENTS_REQUEST_TEMPLATE_ID,
                    seq![
                        Field::I64(control_session_id),
                        Field::I64(correlation_id),
                        Field::I64(recording_id),
                    ],
                    seq![],
                ),
                sent,
            ),
    {
        let mut fields: Vec<Field> = Vec::new();
        fields.push(Field::I64(control_session_id));
        fields.push(Field::I64(correlation_id));
        fields.push(Field::I64(recording_id));
        let vars: Vec<&[u8]> = Vec::new();
        proof {
            assert(fields@ =~= seq![
                Field::I64(control_session_id),
                Field::I64(correlation_id),
                Field::I64(recording_id),
            ]);
            assert(views(vars@) =~= seq![]);
        }
        let length = self.stage(DELETE_DETACHED_SEGMENTS_REQUEST_TEMPLATE_ID, fields.as_slice(), vars.as_slice());
        self.offer(length)
    }

    /// Detaches and deletes the segments of a recording before `new_start_position`.
    pub fn purge_segments(
        &mut self,
        recording_id: i64,
        new_start_position: i64,
        correlation_id: i64,
        control_session_id: i64,
    ) -> (sent: bool)
        requires
            old(self).wf(),
        ensures
            final(self).sent_bounded(
                old(self),
                message_bytes(
                    PURGE_SEGMENTS_REQUEST_TEMPLATE_ID,
                    seq![
                        Field::I64(control_session_id),
                        Field::I64(correlation_id),
                        Field::I64(recording_id),
                        Field::I64(new_start_position),
                    ],
                    seq![],
                ),
                sent,
            ),
    {
        let mut fields: Vec<Field> = Vec::new();
        fields.push(Field::I64(control_session_id));
        fields.push(Field::I64(correlation_id));
        fields.push(Field::I64(recording_id));
        fields.push(Field::I64(new_start_position));
        let vars: Vec<&[u8]> = Vec::new();
        proof {
            assert(fields@ =~= seq![
                Field::I64(control_session_id),
                Field::I64(correlation_id),
                Field::I64(recording_id),
                Field::I64(new_start_position),
            ]);
            assert(views(vars@) =~= seq![]);
        }
        let length = self.stage(PURGE_SEGMENTS_REQUEST_TEMPLATE_ID, fields.as_slice(), vars.as_slice());
        self.offer(length)
    }

    /// Attaches a recording's detached segments again.
    pub fn attach_segments(
        &mut self,
        recording_id: i64,
        correlation_id: i64,
        control_session_id: i64,
    ) -> (sent: bool)
        requires
            old(self).wf(),
        ensures
            final(self).sent_bounded(
                old(self),
                message_bytes(
                    ATTACH_SEGMENTS_REQUEST_TEMPLATE_ID,
                    seq![
                        Field::I64(control_session_id),
                        Field::I64(correlation_id),
                        Field::I64(recording_id),
                    ],
                    seq![],
                ),
                sent,
            ),
    {
        let mut fields: Vec<Field> = Vec::new();
        fields.push(Field::I64(control_session_id));
        fields.push(Field::I64(correlation_id));
        fields.push(Field::I64(recording_id));
        let vars: Vec<&[u8]> = Vec::new();
        proof {
            assert(fields@ =~= seq![
                Field::I64(control_session_id),
                Field::I64(correlation_id),
                Field::I64(recording_id),
            ]);
            assert(views(vars@) =~= seq![]);
        }
        let length = self.stage(ATTACH_SEGMENTS_REQUEST_TEMPLATE_ID, fields.as_slice(), vars.as_slice());
        self.offer(length)
    }

    /// Moves the segments of one recording to the front of another.
    pub fn migrate_segments(
        &mut self,
        src_recording_id: i64,
        dst_recording_id: i64,
        correlation_id: i64,
        control_session_id: i64,
    ) -> (sent: bool)
        requires
            old(self).wf(),
        ensures
            final(self).sent_bounded(
                old(self),
                message_bytes(
                    MIGRATE_SEGMENTS_REQUEST_TEMPLATE_ID,
                    seq![
                        Field::I64(control_session_id),
                        Field::I64(correlation_id),
                        Field::I64(src_recording_id),
                        Field::I64(dst_recording_id),
                    ],
                    seq![],
                ),
                sent,
            ),
    {
        let mut fields: Vec<Field> = Vec::new();
        fields.push(Field::I64(control_session_id));
        fields.push(Field::I64(correlation_id));
        fields.push(Field::I64(src_recording_id));
        fields.push(Field::I64(dst_recording_id));
        let vars: Vec<&[u8]> = Vec::new();
        proof {
            assert(fields@ =~= seq![
                Field::I64(control_session_id),
                Field::I64(correlation_id),
                Field::I64(src_recording_id),
                Field::I64(dst_recording_id),
            ]);
            assert(views(vars@) =~= seq![]);
        }
        let length = self.stage(MIGRATE_SEGMENTS_REQUEST_TEMPLATE_ID, fields.as_slice(), vars.as_slice());
        self.offer(length)
    }

    /// Replays a recording no further than the position held in counter `limit_counter_id`.
    pub fn bounded_replay(
        &mut self,
        recording_id: i64,
        position: i64,
        length: i64,
        limit_counter_id: i32,
        replay_channel: String,
        replay_stream_id: i32,
        correlation_id: i64,
        control_session_id: i64,
        file_io_max_length: i32,
    ) -> (sent: bool)
        requires
            old(self).wf(),
            fits(seq![
                text(&replay_channel),
            ]),
        ensures
            final(self).sent_bounded(
                old(self),
                message_bytes(
                    BOUNDED_REPLAY_REQUEST_TEMPLATE_ID,
                    seq![
                        Field::I64(control_session_id),
                        Field::I64(correlation_id),
                        Field::I64(recording_id),
                        Field::I64(position),
                        Field::I64(length),
                        Field::I32(limit_counter_id),
                        Field::I32(replay_stream_id),
                        Field::I32(file_io_max_length),
                    ],
                    seq![
                        text(&replay_channel),
                    ],
                ),
                sent,
            ),
    {
        let mut fields: Vec<Field> = Vec::new();
        fields.push(Field::I64(control_session_id));
        fields.push(Field::I64(correlation_id));
        fields.push(Field::I64(recording_id));
        fields.push(Field::I64(position));
        fields.push(Field::I64(length));
        fields.push(Field::I32(limit_counter_id));
        fields.push(Field::I32(replay_stream_id));
        fields.push(Field::I32(file_io_max_length));
        let mut vars: Vec<&[u8]> = Vec::new();
        vars.push(replay_channel.as_str().as_bytes());
        proof {
            assert(fields@ =~= seq![
                Field::I64(control_session_id),
                Field::I64(correlation_id),
                Field::I64(recording_id),
                Field::I64(position),
                Field::I64(length),
                Field::I32(limit_counter_id),
                Field::I32(replay_stream_id),
                Field::I32(file_io_max_length),
            ]);
            assert(views(vars@) =~= seq![
                text(&replay_channel),
            ]);
        }
        let length = self.stage(BOUNDED_REPLAY_REQUEST_TEMPLATE_ID, fields.as_slice(), vars.as_slice());
        self.offer(length)
    }

    /// Replicates a recording from another archive.
    pub fn replicate(
        &mut self,
        src_recording_id: i64,
        dst_recording_id: i64,
        stop_position: i64,
        channel_tag_id: i64,
        subscription_tag_id: i64,
        src_control_stream_id: i32,
        src_control_channel: String,
        live_destination: String,
        replication_channel: String,
        correlation_id: i64,
        control_session_id: i64,
        file_io_max_length: i32,
    ) -> (sent: bool)
        requires
            old(self).wf(),
            fits(seq![
                text(&src_control_channel),
                text(&live_destination),
                text(&replication_channel),
            ]),
        ensures
            final(self).sent_bounded(
                old(self),
                message_bytes(
                    REPLICATE_REQUEST_2_TEMPLATE_ID,
                    seq![
                        Field::I64(control_session_id),
                        Field::I64(correlation_id),
                        Field::I64(src_recording_id),
                        Field::I64(dst_recording_id),
                        Field::I64(stop_position),
                        Field::I64(channel_tag_id),
                        Field::I64(subscription_tag_id),
                        Field::I32(src_control_stream_id),
                        Field::I32(file_io_max_length),
                    ],
                    seq![
                        text(&src_control_channel),
                        text(&live_destination),
                        text(&replication_channel),
                    ],
                ),
                sent,
            ),
    {
        let mut fields: Vec<Field> = Vec::new();
        fields.push(Field::I64(control_session_id));
        fields.push(Field::I64(correlation_id));
        fields.push(Field::I64(src_recording_id));
        fields.push(Field::I64(dst_recording_id));
        fields.push(Field::I64(stop_position));
        fields.push(Field::I64(channel_tag_id));
        fields.push(Field::I64(subscription_tag_id));
        fields.push(Field::I32(src_control_stream_id));
        fields.push(Field::I32(file_io_max_length));
        let mut vars: Vec<&[u8]> = Vec::new();
        vars.push(src_control_channel.as_str().as_bytes());
        vars.push(live_destination.as_str().as_bytes());
        vars.push(replication_channel.as_str().as_bytes());
        proof {
            assert(fields@ =~= seq![
                Field::I64(control_session_id),
                Field::I64(correlation_id),
                Field::I64(src_recording_id),
                Field::I64(dst_recording_id),
                Field::I64(stop_position),
                Field::I64(channel_tag_id),
                Field::I64(subscription_tag_id),
                Field::I32(src_control_stream_id),
                Field::I32(file_io_max_length),
            ]);
            assert(views(vars@) =~= seq![
                text(&src_control_channel),
                text(&live_destination),
                text(&replication_channel),
            ]);
        }
        let length = self.stage(REPLICATE_REQUEST_2_TEMPLATE_ID, fields.as_slice(), vars.as_slice());
        self.offer(length)
    }

    /// Replays a recording with the file reads left to the archive's default.
    pub fn replay_with_default_file_io(
        &mut self,
        recording_id: i64,
        position: i64,
        length: i64,
        replay_channel: String,
        replay_stream_id: i32,
        correlation_id: i64,
        control_session_id: i64,
    ) -> (sent: bool)
        requires
            old(self).wf(),
            fits(seq![text(&replay_channel)]),
        ensures
            final(self).sent_bounded(
                old(self),
                replay_message(
                    recording_id,
                    position,
                    length,
                    &replay_channel,
                    replay_stream_id,
                    correlation_id,
                    control_session_id,
                    NULL_VALUE,
                ),
                sent,
            ),
    {
        self.replay(
            recording_id,
            position,
            length,
            replay_channel,
            replay_stream_id,
            correlation_id,
            control_session_id,
            NULL_VALUE,
        )
    }

    /// Replays a recording as `replay_params` say: bounded by a counter when they
    /// name one, else plainly.
    pub fn replay_with_params(
        &mut self,
        recording_id: i64,
        replay_channel: String,
        replay_stream_id: i32,
        replay_params: &ReplayParams,
        correlation_id: i64,
        control_session_id: i64,
    ) -> (sent: bool)
        requires
            old(self).wf(),
            fits(seq![text(&replay_channel)]),
        ensures
            final(self).sent_bounded(
                old(self),
                if replay_params.is_bounded_spec() {
                    bounded_replay_message(
                        recording_id,
                        replay_params.position,
                        replay_params.length,
                        replay_params.bounding_limit_counter_id,
                        &replay_channel,
                        replay_stream_id,
                        correlation_id,
                        control_session_id,
                        replay_params.file_io_max_length,
                    )
                } else {
                    replay_message(
                        recording_id,
                        replay_params.position,
                        replay_params.length,
                        &replay_channel,
                        replay_stream_id,
                        correlation_id,
                        control_session_id,
                        replay_params.file_io_max_length,
                    )
                },
                sent,
            ),
    {
        if replay_params.is_bounded() {
            self.bounded_replay(
                recording_id,
                replay_params.position,
                replay_params.length,
                replay_params.bounding_limit_counter_id,
                replay_channel,
                replay_stream_id,
                correlation_id,
                control_session_id,
                replay_params.file_io_max_length,
            )
        } else {
            self.replay(
                recording_id,
                replay_params.position,
                replay_params.length,
                replay_channel,
                replay_stream_id,
                correlation_id,
                control_session_id,
                replay_params.file_io_max_length,
            )
        }
    }

}

} // verus!
