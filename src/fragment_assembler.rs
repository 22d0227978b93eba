//! Reassembly of messages that the transport splits into fragments, per session.

use vstd::hash_map::HashMapWithView;
use vstd::prelude::*;

verus! {

/// Flags of a fragment that is the first of its message.
pub const BEGIN_FRAG_FLAG: u8 = 0x80;

/// Flags of a fragment that is the last of its message.
pub const END_FRAG_FLAG: u8 = 0x40;

/// Flags of a message that came whole, in one fragment.
pub const UNFRAGMENTED: u8 = 0xC0;

/// Alignment of frames in the transport's term buffers.
pub const FRAME_ALIGNMENT: usize = 32;

/// Length of the transport's frame header that precedes each fragment.
pub const DATA_HEADER_LENGTH: usize = 32;

/// What a handler asks of the poll that delivered a fragment.
#[derive(Clone, Copy, Debug, PartialEq, Eq, Structural)]
pub enum Action {
    /// Stop this poll and deliver the same fragment again on the next.
    Abort,
    /// Stop this poll after this fragment.
    Break,
    /// Consume this fragment and the ones before it, then go on.
    Commit,
    /// Go on.
    Continue,
}

/// The transport's description of one fragment.
#[derive(Clone, Copy, Debug, PartialEq, Eq, Structural)]
pub struct Header {
    pub session_id: i32,
    pub flags: u8,
}

/// Receives whole messages.
pub trait ControlledFragmentHandler {
    /// Takes the `length` bytes of `buffer` at `offset`.
    fn on_fragment(&mut self, buffer: &[u8], offset: usize, length: usize, header: &Header) -> Action
        requires
            offset + length <= buffer@.len(),
    ;
}

pub open spec fn is_unfragmented(flags: u8) -> bool {
    flags & UNFRAGMENTED == UNFRAGMENTED
}

pub open spec fn is_begin(flags: u8) -> bool {
    flags & BEGIN_FRAG_FLAG == BEGIN_FRAG_FLAG
}

pub open spec fn is_end(flags: u8) -> bool {
    flags & END_FRAG_FLAG == END_FRAG_FLAG
}

/// `value` rounded up to a multiple of `alignment`.
pub open spec fn align(value: int, alignment: int) -> int {
    (value + alignment - 1) / alignment * alignment
}

/// Where the fragment after one at `offset` with `length` bytes must start.
pub open spec fn next_offset(offset: int, length: int) -> int {
    align(offset + length + DATA_HEADER_LENGTH as int, FRAME_ALIGNMENT as int)
}

/// A session's partial message: the bytes gathered so far and the offset the next
/// fragment must have; `None` when nothing is being gathered.
pub type Partial = (Seq<u8>, Option<int>);

pub open spec fn empty_partial() -> Partial {
    (Seq::empty(), None)
}

/// The sessions' state after one fragment, and the message handed on, if any.
/// `action` is what the handler answered; it matters only when a message is handed on.
pub open spec fn assemble(
    state: Map<i32, Partial>,
    session_id: i32,
    flags: u8,
    offset: int,
    payload: Seq<u8>,
    action: Action,
) -> (Map<i32, Partial>, Option<Seq<u8>>) {
    if is_unfragmented(flags) {
        (state, Some(payload))
    } else if is_begin(flags) {
        (state.insert(session_id, (payload, Some(next_offset(offset, payload.len() as int)))), None)
    } else if !state.contains_key(session_id) {
        (state, None)
    } else {
        let p = state[session_id];
        if p.1 != Some(offset) {
            (state.insert(session_id, empty_partial()), None)
        } else if is_end(flags) {
            let message = p.0 + payload;
            if action == Action::Abort {
                (state, Some(message))
            } else {
                (state.insert(session_id, empty_partial()), Some(message))
            }
        } else {
            (
                state.insert(session_id, (p.0 + payload, Some(next_offset(offset, payload.len() as int)))),
                None,
            )
        }
    }
}

/// A session's growing message.
pub struct BufferBuilder {
    buffer: Vec<u8>,
    next_term_offset: Option<u128>,
}

impl View for BufferBuilder {
    type V = Partial;

    closed spec fn view(&self) -> Partial {
        (
            self.buffer@,
            match self.next_term_offset {
                Some(o) => Some(o as int),
                None => None,
            },
        )
    }
}

impl BufferBuilder {
    pub fn new(initial_capacity: usize) -> (r: Self)
        ensures
            r@ == empty_partial(),
    {
        BufferBuilder { buffer: Vec::with_capacity(initial_capacity), next_term_offset: None }
    }

    /// Drops what was gathered.
    pub fn reset(&mut self)
        ensures
            final(self)@ == empty_partial(),
    {
        self.buffer.clear();
        self.next_term_offset = None;
    }

    /// The bytes gathered so far.
    pub fn buffer(&self) -> (r: &[u8])
        ensures
            r@ == self@.0,
    {
        self.buffer.as_slice()
    }

    pub fn limit(&self) -> (r: usize)
        ensures
            r == self@.0.len(),
    {
        self.buffer.len()
    }

    pub fn next_term_offset(&self) -> (r: Option<u128>)
        ensures
            r matches Some(o) ==> self@.1 == Some(o as int),
            r is None ==> self@.1 is None,
    {
        self.next_term_offset
    }
}

/// Gathers each session's fragments and hands whole messages to a delegate.
pub struct ControlledFragmentAssembler<F: ControlledFragmentHandler> {
    delegate: F,
    builder_by_session_id_map: HashMapWithView<i32, BufferBuilder>,
    initial_buffer_length: usize,
    is_direct_byte_buffer: bool,
    /// Every message handed to the delegate so far, in order.
    delivered: Ghost<Seq<Seq<u8>>>,
}

impl<F: ControlledFragmentHandler> ControlledFragmentAssembler<F> {
    /// Each session's partial message.
    pub closed spec fn sessions(&self) -> Map<i32, Partial> {
        self.builder_by_session_id_map@.map_values(|b: BufferBuilder| b@)
    }

    /// Every message handed to the delegate so far, in order.
    pub closed spec fn delivered(&self) -> Seq<Seq<u8>> {
        self.delivered@
    }

    pub fn new(delegate: F) -> (r: Self)
        ensures
            r.sessions() == Map::<i32, Partial>::empty(),
            r.delivered() == Seq::<Seq<u8>>::empty(),
            !r.is_direct_byte_buffer_spec(),
            r.delegate_spec() == delegate,
    {
        Self::with_direct_byte_buffer(delegate, 0, false)
    }

    pub fn with_initial_buffer_length(delegate: F, initial_buffer_length: usize) -> (r: Self)
        ensures
            r.sessions() == Map::<i32, Partial>::empty(),
            r.delivered() == Seq::<Seq<u8>>::empty(),
            !r.is_direct_byte_buffer_spec(),
            r.delegate_spec() == delegate,
    {
        Self::with_direct_byte_buffer(delegate, initial_buffer_length, false)
    }

    pub fn with_direct_byte_buffer(
        delegate: F,
        initial_buffer_length: usize,
        is_direct_byte_buffer: bool,
    ) -> (r: Self)
        ensures
            r.sessions() == Map::<i32, Partial>::empty(),
            r.delivered() == Seq::<Seq<u8>>::empty(),
            r.is_direct_byte_buffer_spec() == is_direct_byte_buffer,
            r.delegate_spec() == delegate,
    {
        broadcast use vstd::std_specs::hash::axiom_i32_obeys_hash_table_key_model;

        let r = ControlledFragmentAssembler {
            delegate,
            builder_by_session_id_map: HashMapWithView::new(),
            initial_buffer_length,
            is_direct_byte_buffer,
            delivered: Ghost(Seq::empty()),
        };
        assert(r.sessions() =~= Map::<i32, Partial>::empty());
        r
    }

    pub closed spec fn is_direct_byte_buffer_spec(&self) -> bool {
        self.is_direct_byte_buffer
    }

    pub closed spec fn delegate_spec(&self) -> F {
        self.delegate
    }

    pub fn delegate(&self) -> (r: &F)
        ensures
            *r == self.delegate_spec(),
    {
        &self.delegate
    }

    pub fn delegate_mut(&mut self) -> (r: &mut F)
        ensures
            *r == old(self).delegate_spec(),
            final(self).delegate_spec() == *final(r),
            final(self).sessions() == old(self).sessions(),
            final(self).delivered() == old(self).delivered(),
            final(self).is_direct_byte_buffer_spec() == old(self).is_direct_byte_buffer_spec(),
    {
        &mut self.delegate
    }

    pub fn is_direct_byte_buffer(&self) -> (r: bool)
        ensures
            r == self.is_direct_byte_buffer_spec(),
    {
        self.is_direct_byte_buffer
    }

    /// Takes one fragment of `buffer`, `length` bytes at term offset `offset`.
    /// A whole message goes to the delegate at once; a first fragment starts the
    /// session's message; a later one that starts where the previous ended is
    /// added, and the last hands the whole message on; one that does not start
    /// there drops the partial message. When the delegate aborts, the last
    /// fragment is taken back so that it can come again.
    pub fn on_fragment(&mut self, buffer: &[u8], offset: usize, length: usize, header: &Header) -> (action: Action)
        requires
            offset + length <= buffer@.len(),
        ensures
            ({
                let (state, message) = assemble(
                    old(self).sessions(),
                    header.session_id,
                    header.flags,
                    offset as int,
                    buffer@.subrange(offset as int, offset + length),
                    action,
                );
                &&& final(self).sessions() == state
                &&& final(self).delivered() == match message {
                    Some(m) => old(self).delivered().push(m),
                    None => old(self).delivered(),
                }
                &&& message is None ==> action == Action::Continue
            }),
            final(self).is_direct_byte_buffer_spec() == old(self).is_direct_byte_buffer_spec(),
    {
        assert(buffer@.len() == buffer.len());
        let flags = header.flags;
        let session_id = header.session_id;
        let ghost payload = buffer@.subrange(offset as int, offset + length);
        let ghost old_map = self.builder_by_session_id_map@;
        let mut action = Action::Continue;
        if flags & UNFRAGMENTED == UNFRAGMENTED {
            action = self.delegate.on_fragment(buffer, offset, length, header);
            self.delivered = Ghost(self.delivered@.push(payload));
        } else if flags & BEGIN_FRAG_FLAG == BEGIN_FRAG_FLAG {
            let mut builder = match self.builder_by_session_id_map.remove(&session_id) {
                Some(b) => b,
                None => BufferBuilder::new(self.initial_buffer_length),
            };
            builder.reset();
            builder.buffer.extend_from_slice(&buffer[offset..offset + length]);
            builder.next_term_offset = Some(frame_end(offset, length));
            proof {
                assert(builder.buffer@ =~= payload);
            }
            self.builder_by_session_id_map.insert(session_id, builder);
            proof {
                assert(self.sessions() =~= old(self).sessions().insert(session_id, builder@));
            }
        } else {
            match self.builder_by_session_id_map.remove(&session_id) {
                None => {},
                Some(mut builder) => {
                    if builder.next_term_offset == Some(offset as u128) {
                        let limit = builder.buffer.len();
                        let ghost before = builder.buffer@;
                        builder.buffer.extend_from_slice(&buffer[offset..offset + length]);
                        proof {
                            assert(builder.buffer@ =~= before + payload);
                        }
                        if flags & END_FRAG_FLAG == END_FRAG_FLAG {
                            action = self.delegate.on_fragment(
                                builder.buffer.as_slice(),
                                0,
                                builder.buffer.len(),
                                header,
                            );
                            self.delivered = Ghost(self.delivered@.push(builder.buffer@));
                            if action == Action::Abort {
                                builder.buffer.truncate(limit);
                                proof {
                                    assert(builder.buffer@ =~= before);
                                }
                            } else {
                                builder.reset();
                            }
                        } else {
                            builder.next_term_offset = Some(frame_end(offset, length));
                        }
                    } else {
                        builder.reset();
                    }
                    self.builder_by_session_id_map.insert(session_id, builder);
                    proof {
                        assert(self.sessions() =~= old(self).sessions().insert(session_id, builder@));
                    }
                },
            }
        }
        action
    }

    /// Drops the partial message of a session; whether there was one.
    pub fn free_session_buffer(&mut self, session_id: i32) -> (r: bool)
        ensures
            r == old(self).sessions().contains_key(session_id),
            final(self).sessions() == old(self).sessions().remove(session_id),
            final(self).delivered() == old(self).delivered(),
            final(self).is_direct_byte_buffer_spec() == old(self).is_direct_byte_buffer_spec(),
    {
        let r = self.builder_by_session_id_map.remove(&session_id);
        proof {
            assert(self.sessions() =~= old(self).sessions().remove(session_id));
        }
        r.is_some()
    }
}

impl<F: ControlledFragmentHandler> ControlledFragmentHandler for ControlledFragmentAssembler<F> {
    fn on_fragment(&mut self, buffer: &[u8], offset: usize, length: usize, header: &Header) -> Action {
        ControlledFragmentAssembler::on_fragment(self, buffer, offset, length, header)
    }
}

/// Rounds `value` up to the frame alignment.
pub fn align_frame(value: u128) -> (r: u128)
    requires
        value <= u128::MAX - FRAME_ALIGNMENT as u128,
    ensures
        r == align(value as int, FRAME_ALIGNMENT as int),
{
    (value + (FRAME_ALIGNMENT as u128 - 1)) / FRAME_ALIGNMENT as u128 * FRAME_ALIGNMENT as u128
}

/// Where the fragment after one at `offset` with `length` bytes must start.
pub fn frame_end(offset: usize, length: usize) -> (r: u128)
    ensures
        r == next_offset(offset as int, length as int),
{
    assert(usize::MAX <= u64::MAX);
    align_frame(offset as u128 + length as u128 + DATA_HEADER_LENGTH as u128)
}

proof fn lemma_flag_kinds()
    ensures
        is_unfragmented(UNFRAGMENTED),
        is_begin(BEGIN_FRAG_FLAG) && !is_unfragmented(BEGIN_FRAG_FLAG),
        is_end(END_FRAG_FLAG) && !is_begin(END_FRAG_FLAG) && !is_unfragmented(END_FRAG_FLAG),
        !is_end(0) && !is_begin(0) && !is_unfragmented(0),
{
    assert(0xC0u8 & 0xC0u8 == 0xC0u8) by (bit_vector);
    assert(0x80u8 & 0x80u8 == 0x80u8 && 0x80u8 & 0xC0u8 != 0xC0u8) by (bit_vector);
    assert(0x40u8 & 0x40u8 == 0x40u8 && 0x40u8 & 0x80u8 != 0x80u8 && 0x40u8 & 0xC0u8 != 0xC0u8)
        by (bit_vector);
    assert(0u8 & 0x40u8 != 0x40u8 && 0u8 & 0x80u8 != 0x80u8 && 0u8 & 0xC0u8 != 0xC0u8)
        by (bit_vector);
}

/// A message split into a first fragment, two middle ones and a last one, each
/// starting where the one before ended, reaches the handler as the four payloads
/// joined, and the session is left with nothing gathered.
pub proof fn lemma_fragments_reassemble(
    state: Map<i32, Partial>,
    session_id: i32,
    offset: int,
    part_a: Seq<u8>,
    part_b: Seq<u8>,
    part_c: Seq<u8>,
    part_d: Seq<u8>,
    action: Action,
)
    requires
        action != Action::Abort,
    ensures
        ({
            let o1 = next_offset(offset, part_a.len() as int);
            let o2 = next_offset(o1, part_b.len() as int);
            let o3 = next_offset(o2, part_c.len() as int);
            let (s1, m1) = assemble(state, session_id, BEGIN_FRAG_FLAG, offset, part_a, Action::Continue);
            let (s2, m2) = assemble(s1, session_id, 0, o1, part_b, Action::Continue);
            let (s3, m3) = assemble(s2, session_id, 0, o2, part_c, Action::Continue);
            let (s4, m4) = assemble(s3, session_id, END_FRAG_FLAG, o3, part_d, action);
            &&& m1 is None && m2 is None && m3 is None
            &&& m4 == Some(part_a + part_b + part_c + part_d)
            &&& s4 == state.insert(session_id, empty_partial())
        }),
{
    lemma_flag_kinds();
    let o1 = next_offset(offset, part_a.len() as int);
    let o2 = next_offset(o1, part_b.len() as int);
    let o3 = next_offset(o2, part_c.len() as int);
    let (s1, m1) = assemble(state, session_id, BEGIN_FRAG_FLAG, offset, part_a, Action::Continue);
    let (s2, m2) = assemble(s1, session_id, 0, o1, part_b, Action::Continue);
    let (s3, m3) = assemble(s2, session_id, 0, o2, part_c, Action::Continue);
    assert(s3[session_id] == (part_a + part_b + part_c, Some(o3)));
    let (s4, m4) = assemble(s3, session_id, END_FRAG_FLAG, o3, part_d, action);
    assert(s4 =~= state.insert(session_id, empty_partial()));
}

/// A message that came whole is handed on at once and changes no session.
pub proof fn lemma_unfragmented_delivers_at_once(
    state: Map<i32, Partial>,
    session_id: i32,
    offset: int,
    payload: Seq<u8>,
    action: Action,
)
    ensures
        assemble(state, session_id, UNFRAGMENTED, offset, payload, action) == (state, Some(payload)),
{
    lemma_flag_kinds();
}

/// After a first fragment, one that does not start where it ended drops the
/// partial message, and a last fragment that follows is dropped too.
pub proof fn lemma_gap_discards(
    state: Map<i32, Partial>,
    session_id: i32,
    offset: int,
    head: Seq<u8>,
    gap_offset: int,
    stray: Seq<u8>,
    end_offset: int,
    tail: Seq<u8>,
    action: Action,
)
    requires
        gap_offset != next_offset(offset, head.len() as int),
    ensures
        ({
            let (s1, m1) = assemble(state, session_id, BEGIN_FRAG_FLAG, offset, head, Action::Continue);
            let (s2, m2) = assemble(s1, session_id, 0, gap_offset, stray, Action::Continue);
            let (s3, m3) = assemble(s2, session_id, END_FRAG_FLAG, end_offset, tail, action);
            &&& m1 is None && m2 is None && m3 is None
            &&& s2 == state.insert(session_id, empty_partial())
            &&& s3 == s2
        }),
{
    lemma_flag_kinds();
    let (s1, m1) = assemble(state, session_id, BEGIN_FRAG_FLAG, offset, head, Action::Continue);
    let (s2, m2) = assemble(s1, session_id, 0, gap_offset, stray, Action::Continue);
    assert(s2 =~= state.insert(session_id, empty_partial()));
    let (s3, m3) = assemble(s2, session_id, END_FRAG_FLAG, end_offset, tail, action);
    assert(s3 =~= s2);
}

} // verus!
