//! Wire layout shared by every message: an 8-byte header, a fixed block of
//! little-endian fields, then length-prefixed variable-length fields.

use crate::bytes::{
    lemma_splice_keeps_others, lemma_splice_reads_back,
    le_i32, le_i64, le_u16, le_u32, lemma_le_round_trip, read_u16, read_u32, splice, window,
    write_u16,
};
use crate::expandable_array_buffer::{
    ensured, lemma_ensured_keeps_contents, ExpandableArrayBuffer, MAX_ARRAY_LENGTH,
};
use vstd::prelude::*;

verus! {

/// Length of the message header.
pub const HEADER_LENGTH: usize = 8;

/// Length of the prefix before each variable-length field.
pub const VAR_DATA_PREFIX_LENGTH: usize = 4;

/// Identity of the control protocol schema.
pub const SCHEMA_ID: u16 = 101;

/// Version of the control protocol schema.
pub const SCHEMA_VERSION: u16 = 7;

#[derive(Clone, Copy, Debug, PartialEq, Eq, Structural)]
pub struct MessageHeader {
    pub block_length: u16,
    pub template_id: u16,
    pub schema_id: u16,
    pub version: u16,
}

pub open spec fn header_bytes(h: MessageHeader) -> Seq<u8> {
    le_u16(h.block_length) + le_u16(h.template_id) + le_u16(h.schema_id) + le_u16(h.version)
}

/// The header read from the first 8 bytes of `s`.
pub open spec fn parse_header(s: Seq<u8>) -> MessageHeader {
    MessageHeader {
        block_length: read_u16(window(s, 0, 2)),
        template_id: read_u16(window(s, 2, 2)),
        schema_id: read_u16(window(s, 4, 2)),
        version: read_u16(window(s, 6, 2)),
    }
}

/// A header written at `offset` into any buffer is read back unchanged from there.
pub proof fn lemma_header_round_trip(h: MessageHeader, s: Seq<u8>, offset: int)
    requires
        0 <= offset,
        offset + HEADER_LENGTH <= s.len(),
    ensures
        header_bytes(h).len() == HEADER_LENGTH,
        parse_header(window(splice(s, offset, header_bytes(h)), offset, HEADER_LENGTH as int)) == h,
{
    lemma_le_round_trip();
    let w = window(splice(s, offset, header_bytes(h)), offset, HEADER_LENGTH as int);
    assert(w =~= header_bytes(h));
    assert(window(w, 0, 2) =~= le_u16(h.block_length));
    assert(window(w, 2, 2) =~= le_u16(h.template_id));
    assert(window(w, 4, 2) =~= le_u16(h.schema_id));
    assert(window(w, 6, 2) =~= le_u16(h.version));
}

/// A header that `MessageHeader::encode` writes at `offset` into a buffer
/// holding `s` is what `MessageHeader::decode` reads back from there.
pub proof fn lemma_header_round_trip_through_buffer(h: MessageHeader, s: Seq<u8>, offset: int)
    requires
        0 <= offset,
        offset + HEADER_LENGTH <= MAX_ARRAY_LENGTH,
        s.len() <= MAX_ARRAY_LENGTH,
    ensures
        ({
            let written = splice(ensured(s, offset, HEADER_LENGTH as int), offset, header_bytes(h));
            &&& offset + HEADER_LENGTH <= written.len()
            &&& parse_header(window(written, offset, HEADER_LENGTH as int)) == h
        }),
{
    lemma_ensured_keeps_contents(s, offset, HEADER_LENGTH as int);
    lemma_header_round_trip(h, ensured(s, offset, HEADER_LENGTH as int), offset);
}

/// The four header fields written one by one at `offset`, as `WriteBuf::put_u16_at`
/// writes them, are read back one by one by `ReadBuf::get_u16_at`, whatever their values.
pub proof fn lemma_header_fields_round_trip(
    s: Seq<u8>,
    offset: int,
    block_length: u16,
    template_id: u16,
    schema_id: u16,
    version: u16,
)
    requires
        0 <= offset,
        offset + HEADER_LENGTH <= s.len(),
    ensures
        ({
            let w = splice(
                splice(
                    splice(splice(s, offset, le_u16(block_length)), offset + 2, le_u16(template_id)),
                    offset + 4,
                    le_u16(schema_id),
                ),
                offset + 6,
                le_u16(version),
            );
            &&& w.len() == s.len()
            &&& read_u16(window(w, offset, 2)) == block_length
            &&& read_u16(window(w, offset + 2, 2)) == template_id
            &&& read_u16(window(w, offset + 4, 2)) == schema_id
            &&& read_u16(window(w, offset + 6, 2)) == version
        }),
{
    lemma_le_round_trip();
    let w1 = splice(s, offset, le_u16(block_length));
    lemma_splice_reads_back(s, offset, le_u16(block_length));
    let w2 = splice(w1, offset + 2, le_u16(template_id));
    lemma_splice_reads_back(w1, offset + 2, le_u16(template_id));
    lemma_splice_keeps_others(w1, offset + 2, le_u16(template_id), offset, 2);
    let w3 = splice(w2, offset + 4, le_u16(schema_id));
    lemma_splice_reads_back(w2, offset + 4, le_u16(schema_id));
    lemma_splice_keeps_others(w2, offset + 4, le_u16(schema_id), offset, 2);
    lemma_splice_keeps_others(w2, offset + 4, le_u16(schema_id), offset + 2, 2);
    let w4 = splice(w3, offset + 6, le_u16(version));
    lemma_splice_reads_back(w3, offset + 6, le_u16(version));
    lemma_splice_keeps_others(w3, offset + 6, le_u16(version), offset, 2);
    lemma_splice_keeps_others(w3, offset + 6, le_u16(version), offset + 2, 2);
    lemma_splice_keeps_others(w3, offset + 6, le_u16(version), offset + 4, 2);
}

/// Variable-length fields written one after another from `limit`, as the
/// encoders' var-data functions write them, are read back in the same order by
/// the decoders' var-data functions: each read finds the field's length, then
/// its exact bytes, and ends where the next field starts. This holds for
/// fields of any length, the empty one included.
pub proof fn lemma_four_var_fields_round_trip(
    s: Seq<u8>,
    limit: int,
    a: Seq<u8>,
    b: Seq<u8>,
    c: Seq<u8>,
    d: Seq<u8>,
)
    requires
        0 <= limit,
        limit + 16 + a.len() + b.len() + c.len() + d.len() <= s.len(),
        a.len() <= u32::MAX,
        b.len() <= u32::MAX,
        c.len() <= u32::MAX,
        d.len() <= u32::MAX,
    ensures
        ({
            let ca = limit;
            let cb = ca + 4 + a.len();
            let cc = cb + 4 + b.len();
            let cd = cc + 4 + c.len();
            let w = splice(
                splice(splice(splice(s, ca, var_field_bytes(a)), cb, var_field_bytes(b)), cc, var_field_bytes(c)),
                cd,
                var_field_bytes(d),
            );
            &&& w.len() == s.len()
            &&& read_u32(window(w, ca, 4)) == a.len() && window(w, ca + 4, a.len() as int) == a
            &&& read_u32(window(w, cb, 4)) == b.len() && window(w, cb + 4, b.len() as int) == b
            &&& read_u32(window(w, cc, 4)) == c.len() && window(w, cc + 4, c.len() as int) == c
            &&& read_u32(window(w, cd, 4)) == d.len() && window(w, cd + 4, d.len() as int) == d
        }),
{
    lemma_le_round_trip();
    let ca = limit;
    let cb = ca + 4 + a.len();
    let cc = cb + 4 + b.len();
    let cd = cc + 4 + c.len();
    let (fa, fb, fc, fd) = (var_field_bytes(a), var_field_bytes(b), var_field_bytes(c), var_field_bytes(d));
    let w1 = splice(s, ca, fa);
    let w2 = splice(w1, cb, fb);
    let w3 = splice(w2, cc, fc);
    let w4 = splice(w3, cd, fd);
    lemma_splice_reads_back(s, ca, fa);
    lemma_splice_reads_back(w1, cb, fb);
    lemma_splice_reads_back(w2, cc, fc);
    lemma_splice_reads_back(w3, cd, fd);
    lemma_splice_keeps_others(w1, cb, fb, ca, fa.len() as int);
    lemma_splice_keeps_others(w2, cc, fc, ca, fa.len() as int);
    lemma_splice_keeps_others(w3, cd, fd, ca, fa.len() as int);
    lemma_splice_keeps_others(w2, cc, fc, cb, fb.len() as int);
    lemma_splice_keeps_others(w3, cd, fd, cb, fb.len() as int);
    lemma_splice_keeps_others(w3, cd, fd, cc, fc.len() as int);
    lemma_var_field_reads(w4, ca, a);
    lemma_var_field_reads(w4, cb, b);
    lemma_var_field_reads(w4, cc, c);
    lemma_var_field_reads(w4, cd, d);
}

/// Where a field's encoding stands, its length prefix and its bytes are read.
proof fn lemma_var_field_reads(w: Seq<u8>, at: int, x: Seq<u8>)
    requires
        0 <= at,
        at + 4 + x.len() <= w.len(),
        x.len() <= u32::MAX,
        window(w, at, 4 + x.len() as int) == var_field_bytes(x),
    ensures
        read_u32(window(w, at, 4)) == x.len(),
        window(w, at + 4, x.len() as int) == x,
{
    lemma_le_round_trip();
    assert(window(w, at, 4) =~= window(w, at, 4 + x.len() as int).subrange(0, 4));
    assert(window(var_field_bytes(x), 0, 4) =~= le_u32(x.len() as u32));
    assert(window(w, at + 4, x.len() as int) =~= window(w, at, 4 + x.len() as int).subrange(4, 4 + x.len() as int));
    assert(var_field_bytes(x).subrange(4, 4 + x.len() as int) =~= x);
}

/// The header depends on the first 8 bytes alone.
pub proof fn lemma_parse_header_prefix(s: Seq<u8>)
    requires
        s.len() >= HEADER_LENGTH,
    ensures
        parse_header(window(s, 0, HEADER_LENGTH as int)) == parse_header(s),
{
    let w = window(s, 0, HEADER_LENGTH as int);
    assert(window(w, 0, 2) =~= window(s, 0, 2));
    assert(window(w, 2, 2) =~= window(s, 2, 2));
    assert(window(w, 4, 2) =~= window(s, 4, 2));
    assert(window(w, 6, 2) =~= window(s, 6, 2));
}

impl MessageHeader {
    /// The header of a message of this schema.
    pub fn for_template(block_length: u16, template_id: u16) -> (r: Self)
        ensures
            r == (MessageHeader {
                block_length,
                template_id,
                schema_id: SCHEMA_ID,
                version: SCHEMA_VERSION,
            }),
    {
        MessageHeader { block_length, template_id, schema_id: SCHEMA_ID, version: SCHEMA_VERSION }
    }

    /// Writes the header at `offset`; the body starts right after it.
    pub fn encode(&self, buffer: &mut ExpandableArrayBuffer, offset: usize) -> (end: usize)
        requires
            old(buffer).wf(),
            offset + HEADER_LENGTH <= MAX_ARRAY_LENGTH,
        ensures
            end == offset + HEADER_LENGTH,
            final(buffer).wf(),
            final(buffer)@ == splice(
                ensured(old(buffer)@, offset as int, HEADER_LENGTH as int),
                offset as int,
                header_bytes(*self),
            ),
    {
        let mut bytes: Vec<u8> = vec![0u8; HEADER_LENGTH];
        self.write_to(&mut bytes, 0);
        proof {
            lemma_le_round_trip();
            assert(bytes@ =~= header_bytes(*self));
        }
        buffer.put_bytes(offset, bytes.as_slice());
        offset + HEADER_LENGTH
    }

    /// Writes the header into a plain byte vector at `offset`.
    pub fn write_to(&self, data: &mut Vec<u8>, offset: usize) -> (end: usize)
        requires
            offset + HEADER_LENGTH <= old(data)@.len(),
        ensures
            end == offset + HEADER_LENGTH,
            final(data)@ == splice(old(data)@, offset as int, header_bytes(*self)),
    {
        proof {
            lemma_le_round_trip();
        }
        assert(data@.len() == data.len());
        write_u16(data, offset, self.block_length);
        write_u16(data, offset + 2, self.template_id);
        write_u16(data, offset + 4, self.schema_id);
        write_u16(data, offset + 6, self.version);
        assert(data@ =~= splice(old(data)@, offset as int, header_bytes(*self)));
        offset + HEADER_LENGTH
    }

    /// Reads the header at `offset`.
    pub fn decode(data: &[u8], offset: usize) -> (r: Self)
        requires
            offset + HEADER_LENGTH <= data@.len(),
        ensures
            r == parse_header(window(data@, offset as int, HEADER_LENGTH as int)),
    {
        assert(data@.len() == data.len());
        let block_length = crate::bytes::read_u16_at(data, offset);
        let template_id = crate::bytes::read_u16_at(data, offset + 2);
        let schema_id = crate::bytes::read_u16_at(data, offset + 4);
        let version = crate::bytes::read_u16_at(data, offset + 6);
        let ghost w = window(data@, offset as int, HEADER_LENGTH as int);
        assert(window(w, 0, 2) =~= window(data@, offset as int, 2));
        assert(window(w, 2, 2) =~= window(data@, offset + 2, 2));
        assert(window(w, 4, 2) =~= window(data@, offset + 4, 2));
        assert(window(w, 6, 2) =~= window(data@, offset + 6, 2));
        MessageHeader { block_length, template_id, schema_id, version }
    }
}

/// A fixed-block field value.
#[derive(Clone, Copy, Debug, PartialEq, Eq, Structural)]
pub enum Field {
    I32(i32),
    I64(i64),
}

pub open spec fn field_bytes(f: Field) -> Seq<u8> {
    match f {
        Field::I32(v) => le_i32(v),
        Field::I64(v) => le_i64(v),
    }
}

/// The fixed block: the fields in declaration order, packed.
pub open spec fn block_bytes(fs: Seq<Field>) -> Seq<u8>
    decreases fs.len(),
{
    if fs.len() == 0 {
        Seq::empty()
    } else {
        block_bytes(fs.drop_last()) + field_bytes(fs.last())
    }
}

/// One variable-length field: its length as a u32, then its bytes.
pub open spec fn var_field_bytes(v: Seq<u8>) -> Seq<u8> {
    le_u32(v.len() as u32) + v
}

/// The variable-length fields in declaration order.
pub open spec fn var_data_bytes(vs: Seq<Seq<u8>>) -> Seq<u8>
    decreases vs.len(),
{
    if vs.len() == 0 {
        Seq::empty()
    } else {
        var_data_bytes(vs.drop_last()) + var_field_bytes(vs.last())
    }
}

/// A whole message of this schema: header, fixed block, variable-length fields.
pub open spec fn message_bytes(template_id: u16, fields: Seq<Field>, vars: Seq<Seq<u8>>) -> Seq<
    u8,
> {
    header_bytes(
        MessageHeader {
            block_length: block_bytes(fields).len() as u16,
            template_id,
            schema_id: SCHEMA_ID,
            version: SCHEMA_VERSION,
        },
    ) + block_bytes(fields) + var_data_bytes(vars)
}

/// The byte views of a list of byte slices.
pub open spec fn views(vs: Seq<&[u8]>) -> Seq<Seq<u8>> {
    vs.map_values(|v: &[u8]| v@)
}

/// The total length of the variable-length fields.
pub open spec fn var_data_length(vs: Seq<Seq<u8>>) -> int
    decreases vs.len(),
{
    if vs.len() == 0 {
        0
    } else {
        var_data_length(vs.drop_last()) + 4 + vs.last().len()
    }
}

pub proof fn lemma_block_length(fs: Seq<Field>)
    ensures
        block_bytes(fs).len() <= 8 * fs.len(),
    decreases fs.len(),
{
    lemma_le_round_trip();
    if fs.len() > 0 {
        lemma_block_length(fs.drop_last());
    }
}

pub proof fn lemma_var_data_length(vs: Seq<Seq<u8>>)
    ensures
        var_data_bytes(vs).len() == var_data_length(vs),
    decreases vs.len(),
{
    lemma_le_round_trip();
    if vs.len() > 0 {
        lemma_var_data_length(vs.drop_last());
    }
}

/// Every field's encoded bytes, in order.
pub fn encode_block(fields: &[Field]) -> (r: Vec<u8>)
    ensures
        r@ == block_bytes(fields@),
{
    let mut out: Vec<u8> = Vec::new();
    let mut i: usize = 0;
    while i < fields.len()
        invariant
            i <= fields@.len(),
            out@ == block_bytes(fields@.subrange(0, i as int)),
        decreases fields@.len() - i,
    {
        let mut b = match fields[i] {
            Field::I32(v) => vstd::bytes::u32_to_le_bytes(#[verifier::truncate] (v as u32)),
            Field::I64(v) => vstd::bytes::u64_to_le_bytes(#[verifier::truncate] (v as u64)),
        };
        out.append(&mut b);
        proof {
            let next = fields@.subrange(0, i + 1);
            assert(next.drop_last() =~= fields@.subrange(0, i as int));
        }
        i = i + 1;
    }
    assert(fields@.subrange(0, fields@.len() as int) =~= fields@);
    out
}

/// Every variable-length field, each after its length, in order.
pub fn encode_var_data(vars: &[&[u8]]) -> (r: Vec<u8>)
    requires
        forall|k: int| 0 <= k < vars@.len() ==> #[trigger] vars@[k]@.len() <= u32::MAX,
    ensures
        r@ == var_data_bytes(views(vars@)),
{
    let mut out: Vec<u8> = Vec::new();
    let mut i: usize = 0;
    while i < vars.len()
        invariant
            i <= vars@.len(),
            forall|k: int| 0 <= k < vars@.len() ==> #[trigger] vars@[k]@.len() <= u32::MAX,
            out@ == var_data_bytes(views(vars@).subrange(0, i as int)),
        decreases vars@.len() - i,
    {
        let v: &[u8] = vars[i];
        let mut len_bytes = vstd::bytes::u32_to_le_bytes(v.len() as u32);
        let mut body = vstd::slice::slice_to_vec(v);
        out.append(&mut len_bytes);
        out.append(&mut body);
        proof {
            let next = views(vars@).subrange(0, i + 1);
            assert(next.drop_last() =~= views(vars@).subrange(0, i as int));
            assert(next.last() == v@);
        }
        i = i + 1;
    }
    assert(views(vars@).subrange(0, vars@.len() as int) =~= views(vars@));
    out
}

/// Encodes a whole message of this schema.
pub fn encode_message(template_id: u16, fields: &[Field], vars: &[&[u8]]) -> (r: Vec<u8>)
    requires
        fields@.len() <= 8000,
        forall|k: int| 0 <= k < vars@.len() ==> #[trigger] vars@[k]@.len() <= u32::MAX,
    ensures
        r@ == message_bytes(template_id, fields@, views(vars@)),
{
    let mut block = encode_block(fields);
    let mut var_data = encode_var_data(vars);
    proof {
        lemma_block_length(fields@);
    }
    let header = MessageHeader::for_template(block.len() as u16, template_id);
    let mut out: Vec<u8> = vec![0u8; HEADER_LENGTH];
    header.write_to(&mut out, 0);
    out.append(&mut block);
    out.append(&mut var_data);
    proof {
        lemma_le_round_trip();
        assert(out@ =~= message_bytes(template_id, fields@, views(vars@)));
    }
    out
}

/// Splitting the field list splits the encoded bytes the same way.
pub proof fn lemma_var_data_split(a: Seq<Seq<u8>>, b: Seq<Seq<u8>>)
    ensures
        var_data_bytes(a + b) == var_data_bytes(a) + var_data_bytes(b),
    decreases b.len(),
{
    if b.len() == 0 {
        assert(a + b =~= a);
        assert(var_data_bytes(a) + var_data_bytes(b) =~= var_data_bytes(a));
    } else {
        assert((a + b).drop_last() =~= a + b.drop_last());
        assert((a + b).last() == b.last());
        lemma_var_data_split(a, b.drop_last());
        assert(var_data_bytes(a + b) =~= var_data_bytes(a) + var_data_bytes(b));
    }
}

/// Reading variable-length fields in declaration order, each from where the
/// previous one ended, gives back exactly the bytes that were written: the
/// `i`-th read starts at the total length of the fields before it, finds the
/// field's length there, then the field's bytes, and ends where the next begins.
pub proof fn lemma_var_data_in_order(vs: Seq<Seq<u8>>, i: int)
    requires
        0 <= i < vs.len(),
        forall|k: int| 0 <= k < vs.len() ==> #[trigger] vs[k].len() <= u32::MAX,
    ensures
        ({
            let s = var_data_bytes(vs);
            let cursor = var_data_length(vs.subrange(0, i));
            &&& read_u32(window(s, cursor, 4)) == vs[i].len()
            &&& window(s, cursor + 4, vs[i].len() as int) == vs[i]
            &&& cursor + 4 + vs[i].len() == var_data_length(vs.subrange(0, i + 1))
        }),
{
    lemma_le_round_trip();
    let a = vs.subrange(0, i);
    let rest = vs.subrange(i + 1, vs.len() as int);
    let one = seq![vs[i]];
    assert(vs =~= a + (one + rest));
    lemma_var_data_split(a, one + rest);
    lemma_var_data_split(one, rest);
    assert(one.drop_last() =~= Seq::<Seq<u8>>::empty());
    assert(var_data_bytes(one.drop_last()) =~= Seq::<u8>::empty());
    assert(one.last() == vs[i]);
    assert(var_data_bytes(one) =~= var_field_bytes(vs[i]));
    lemma_var_data_length(a);
    let s = var_data_bytes(vs);
    let cursor = var_data_length(a);
    assert(s =~= var_data_bytes(a) + (var_field_bytes(vs[i]) + var_data_bytes(rest)));
    assert(window(s, cursor, 4) =~= le_u32(vs[i].len() as u32));
    assert(window(s, cursor + 4, vs[i].len() as int) =~= vs[i]);
    assert(vs.subrange(0, i + 1).drop_last() =~= a);
}

/// Where a variable-length field whose length prefix sits at `cursor` starts and
/// how long it is; `None` when the prefix or the field runs past the end.
pub fn read_var_field(data: &[u8], cursor: usize) -> (r: Option<(usize, usize)>)
    ensures
        match r {
            Some((start, len)) => {
                &&& cursor + 4 <= data@.len()
                &&& start == cursor + 4
                &&& len == read_u32(window(data@, cursor as int, 4))
                &&& start + len <= data@.len()
            },
            None => cursor + 4 > data@.len() || cursor + 4 + read_u32(
                window(data@, cursor as int, 4),
            ) > data@.len(),
        },
{
    let n = data.len();
    if cursor > n || n - cursor < 4 {
        return None;
    }
    let len = crate::bytes::read_u32_at(data, cursor) as usize;
    if n - cursor - 4 < len {
        return None;
    }
    Some((cursor + 4, len))
}

// Template ids of the control protocol's messages.
pub const CONTROL_RESPONSE_TEMPLATE_ID: u16 = 1;
pub const CLOSE_SESSION_REQUEST_TEMPLATE_ID: u16 = 3;
pub const START_RECORDING_REQUEST_TEMPLATE_ID: u16 = 4;
pub const STOP_RECORDING_REQUEST_TEMPLATE_ID: u16 = 5;
pub const REPLAY_REQUEST_TEMPLATE_ID: u16 = 6;
pub const STOP_REPLAY_REQUEST_TEMPLATE_ID: u16 = 7;
pub const LIST_RECORDINGS_REQUEST_TEMPLATE_ID: u16 = 8;
pub const LIST_RECORDINGS_FOR_URI_REQUEST_TEMPLATE_ID: u16 = 9;
pub const LIST_RECORDING_REQUEST_TEMPLATE_ID: u16 = 10;
pub const EXTEND_RECORDING_REQUEST_TEMPLATE_ID: u16 = 11;
pub const RECORDING_POSITION_REQUEST_TEMPLATE_ID: u16 = 12;
pub const TRUNCATE_RECORDING_REQUEST_TEMPLATE_ID: u16 = 13;
pub const STOP_RECORDING_SUBSCRIPTION_REQUEST_TEMPLATE_ID: u16 = 14;
pub const STOP_POSITION_REQUEST_TEMPLATE_ID: u16 = 15;
pub const FIND_LAST_MATCHING_RECORDING_REQUEST_TEMPLATE_ID: u16 = 16;
pub const LIST_RECORDING_SUBSCRIPTIONS_REQUEST_TEMPLATE_ID: u16 = 17;
pub const BOUNDED_REPLAY_REQUEST_TEMPLATE_ID: u16 = 18;
pub const STOP_ALL_REPLAYS_REQUEST_TEMPLATE_ID: u16 = 19;
pub const CATALOG_HEADER_TEMPLATE_ID: u16 = 20;
pub const RECORDING_DESCRIPTOR_TEMPLATE_ID: u16 = 22;
pub const RECORDING_SUBSCRIPTION_DESCRIPTOR_TEMPLATE_ID: u16 = 23;
pub const RECORDING_SIGNAL_EVENT_TEMPLATE_ID: u16 = 24;
pub const STOP_REPLICATION_REQUEST_TEMPLATE_ID: u16 = 51;
pub const START_POSITION_REQUEST_TEMPLATE_ID: u16 = 52;
pub const DETACH_SEGMENTS_REQUEST_TEMPLATE_ID: u16 = 53;
pub const DELETE_DETACHED_SEGMENTS_REQUEST_TEMPLATE_ID: u16 = 54;
pub const PURGE_SEGMENTS_REQUEST_TEMPLATE_ID: u16 = 55;
pub const ATTACH_SEGMENTS_REQUEST_TEMPLATE_ID: u16 = 56;
pub const MIGRATE_SEGMENTS_REQUEST_TEMPLATE_ID: u16 = 57;
pub const AUTH_CONNECT_REQUEST_TEMPLATE_ID: u16 = 58;
pub const CHALLENGE_TEMPLATE_ID: u16 = 59;
pub const CHALLENGE_RESPONSE_TEMPLATE_ID: u16 = 60;
pub const KEEP_ALIVE_REQUEST_TEMPLATE_ID: u16 = 61;
pub const START_RECORDING_REQUEST_2_TEMPLATE_ID: u16 = 63;
pub const EXTEND_RECORDING_REQUEST_2_TEMPLATE_ID: u16 = 64;
pub const STOP_RECORDING_BY_IDENTITY_REQUEST_TEMPLATE_ID: u16 = 65;
pub const REPLICATE_REQUEST_2_TEMPLATE_ID: u16 = 66;
pub const PURGE_RECORDING_REQUEST_TEMPLATE_ID: u16 = 104;

/// Whether a message with these variable-length fields, and a fixed block of at
/// most a kilobyte, fits in a buffer.
pub open spec fn fits(vars: Seq<Seq<u8>>) -> bool {
    var_data_length(vars) + HEADER_LENGTH + 1024 <= MAX_ARRAY_LENGTH
}

/// Each field counts in the total, with its prefix.
pub proof fn lemma_var_data_length_bounds(vs: Seq<Seq<u8>>)
    ensures
        forall|k: int| 0 <= k < vs.len() ==> #[trigger] vs[k].len() + 4 <= var_data_length(vs),
        var_data_length(vs) >= 0,
    decreases vs.len(),
{
    if vs.len() > 0 {
        lemma_var_data_length_bounds(vs.drop_last());
        assert forall|k: int| 0 <= k < vs.len() implies #[trigger] vs[k].len() + 4 <= var_data_length(vs) by {
            if k < vs.len() - 1 {
                assert(vs.drop_last()[k] == vs[k]);
            }
        }
    }
}

/// A message that fits has fields whose lengths fit their prefix, and fits whole.
pub proof fn lemma_fits(template_id: u16, fields: Seq<Field>, vars: Seq<Seq<u8>>)
    requires
        fits(vars),
        fields.len() <= 64,
    ensures
        forall|k: int| 0 <= k < vars.len() ==> #[trigger] vars[k].len() <= u32::MAX,
        message_bytes(template_id, fields, vars).len() <= MAX_ARRAY_LENGTH,
{
    lemma_var_data_length_bounds(vars);
    lemma_var_data_length(vars);
    lemma_block_length(fields);
    lemma_le_round_trip();
}

} // verus!
