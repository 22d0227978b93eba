//! The archive mark file's header: timestamps, process id, stream ids and
//! channels of a running archive.

use crate::bytes::{le_i32, le_i64, read_i32, read_i64, splice, window};
use crate::bytes::read_u32;
use crate::codec::{header_bytes, parse_header, MessageHeader, HEADER_LENGTH};
use crate::sbe::{Decoder, Encoder, ReadBuf, Reader, SbeErr, WriteBuf, Writer};
use vstd::prelude::*;

verus! {

pub const SBE_BLOCK_LENGTH: u16 = 128;
pub const SBE_TEMPLATE_ID: u16 = 200;
pub const SBE_SCHEMA_ID: u16 = 100;
pub const SBE_SCHEMA_VERSION: u16 = 1;

/// The header that starts this message.
pub open spec fn message_header() -> MessageHeader {
    MessageHeader {
        block_length: SBE_BLOCK_LENGTH,
        template_id: SBE_TEMPLATE_ID,
        schema_id: SBE_SCHEMA_ID,
        version: SBE_SCHEMA_VERSION,
    }
}

#[derive(Debug, Default)]
pub struct MarkFileHeaderEncoder {
    buf: WriteBuf,
    initial_offset: usize,
    offset: usize,
    limit: usize,
}

impl Writer for MarkFileHeaderEncoder {
    fn get_buf_mut(&mut self) -> &mut WriteBuf {
        &mut self.buf
    }
}

impl Encoder for MarkFileHeaderEncoder {
    closed spec fn limit_spec(&self) -> usize {
        self.limit
    }

    fn get_limit(&self) -> (r: usize) {
        self.limit
    }

    fn set_limit(&mut self, limit: usize) {
        self.limit = limit;
    }
}

impl MarkFileHeaderEncoder {
    /// The bytes being written.
    pub closed spec fn bytes(&self) -> Seq<u8> {
        self.buf@
    }

    /// Where the fixed block starts.
    pub closed spec fn offset_spec(&self) -> usize {
        self.offset
    }

    /// The block starts no later than the limit, and the bytes fit in memory.
    pub closed spec fn wf(&self) -> bool {
        self.offset <= self.limit && self.buf@.len() <= usize::MAX
    }

    /// An encoder over no bytes, to be bound with `wrap`.
    pub fn new() -> (r: Self)
        ensures
            r.wf(),
            r.bytes() == Seq::<u8>::empty(),
            r.offset_spec() == 0,
            r.limit_spec() == 0,
    {
        let buf = WriteBuf::new(Vec::new());
        MarkFileHeaderEncoder { buf, initial_offset: 0, offset: 0, limit: 0 }
    }

    /// Binds to `buf` with the fixed block at `offset`.
    pub fn wrap(self, buf: WriteBuf, offset: usize) -> (r: Self)
        requires
            offset + SBE_BLOCK_LENGTH <= usize::MAX,
        ensures
            r.wf(),
            r.bytes() == buf@,
            r.offset_spec() == offset,
            r.limit_spec() == offset + SBE_BLOCK_LENGTH,
    {
        let limit = offset + SBE_BLOCK_LENGTH as usize;
        let length = buf.len();
        assert(length == buf@.len());
        MarkFileHeaderEncoder { buf, initial_offset: offset, offset, limit }
    }

    /// The bytes written from the start of the block to the limit.
    pub fn encoded_length(&self) -> (r: usize)
        requires
            self.wf(),
        ensures
            r == self.limit_spec() - self.offset_spec(),
    {
        self.limit - self.offset
    }

    /// Writes this message's header at `offset`; the block is written after it.
    pub fn header(self, offset: usize) -> (r: Self)
        requires
            self.wf(),
            offset + HEADER_LENGTH <= self.bytes().len(),
        ensures
            r.bytes() == splice(self.bytes(), offset as int, header_bytes(message_header())),
            r.offset_spec() == self.offset_spec(),
            r.limit_spec() == self.limit_spec(),
            r.wf() == self.wf(),
    {
        let mut r = self;
        r.buf.put_u16_at(offset, SBE_BLOCK_LENGTH);
        r.buf.put_u16_at(offset + 2, SBE_TEMPLATE_ID);
        r.buf.put_u16_at(offset + 4, SBE_SCHEMA_ID);
        r.buf.put_u16_at(offset + 6, SBE_SCHEMA_VERSION);
        proof {
            crate::bytes::lemma_le_round_trip();
            assert(r.buf@ =~= splice(self.bytes(), offset as int, header_bytes(message_header())));
        }
        r
    }

    /// The written bytes, given back.
    pub fn into_inner(self) -> (r: WriteBuf)
        ensures
            r@ == self.bytes(),
    {
        self.buf
    }

    /// Field `version`: 4 bytes at 0 in the block.
    pub fn version(&mut self, value: i32)
        requires
            old(self).wf(),
            old(self).offset_spec() + 4 <= old(self).bytes().len(),
        ensures
            final(self).bytes() == splice(old(self).bytes(), (old(self).offset_spec()) as int, le_i32(value)),
            final(self).offset_spec() == old(self).offset_spec(),
            final(self).limit_spec() == old(self).limit_spec(),
            final(self).wf() == old(self).wf(),
    {
        let offset = self.offset;
        self.buf.put_i32_at(offset, value);
        proof {
            crate::bytes::lemma_le_round_trip();
        }
    }

    /// Field `activity_timestamp`: 8 bytes at 8 in the block.
    pub fn activity_timestamp(&mut self, value: i64)
        requires
            old(self).wf(),
            old(self).offset_spec() + 8 + 8 <= old(self).bytes().len(),
        ensures
            final(self).bytes() == splice(old(self).bytes(), (old(self).offset_spec() + 8) as int, le_i64(value)),
            final(self).offset_spec() == old(self).offset_spec(),
            final(self).limit_spec() == old(self).limit_spec(),
            final(self).wf() == old(self).wf(),
    {
        let offset = self.offset + 8;
        self.buf.put_i64_at(offset, value);
        proof {
            crate::bytes::lemma_le_round_trip();
        }
    }

    /// Field `start_timestamp`: 8 bytes at 16 in the block.
    pub fn start_timestamp(&mut self, value: i64)
        requires
            old(self).wf(),
            old(self).offset_spec() + 16 + 8 <= old(self).bytes().len(),
        ensures
            final(self).bytes() == splice(old(self).bytes(), (old(self).offset_spec() + 16) as int, le_i64(value)),
            final(self).offset_spec() == old(self).offset_spec(),
            final(self).limit_spec() == old(self).limit_spec(),
            final(self).wf() == old(self).wf(),
    {
        let offset = self.offset + 16;
        self.buf.put_i64_at(offset, value);
        proof {
            crate::bytes::lemma_le_round_trip();
        }
    }

    /// Field `pid`: 8 bytes at 24 in the block.
    pub fn pid(&mut self, value: i64)
        requires
            old(self).wf(),
            old(self).offset_spec() + 24 + 8 <= old(self).bytes().len(),
        ensures
            final(self).bytes() == splice(old(self).bytes(), (old(self).offset_spec() + 24) as int, le_i64(value)),
            final(self).offset_spec() == old(self).offset_spec(),
            final(self).limit_spec() == old(self).limit_spec(),
            final(self).wf() == old(self).wf(),
    {
        let offset = self.offset + 24;
        self.buf.put_i64_at(offset, value);
        proof {
            crate::bytes::lemma_le_round_trip();
        }
    }

    /// Field `control_stream_id`: 4 bytes at 32 in the block.
    pub fn control_stream_id(&mut self, value: i32)
        requires
            old(self).wf(),
            old(self).offset_spec() + 32 + 4 <= old(self).bytes().len(),
        ensures
            final(self).bytes() == splice(old(self).bytes(), (old(self).offset_spec() + 32) as int, le_i32(value)),
            final(self).offset_spec() == old(self).offset_spec(),
            final(self).limit_spec() == old(self).limit_spec(),
            final(self).wf() == old(self).wf(),
    {
        let offset = self.offset + 32;
        self.buf.put_i32_at(offset, value);
        proof {
            crate::bytes::lemma_le_round_trip();
        }
    }

    /// Field `local_control_stream_id`: 4 bytes at 36 in the block.
    pub fn local_control_stream_id(&mut self, value: i32)
        requires
            old(self).wf(),
            old(self).offset_spec() + 36 + 4 <= old(self).bytes().len(),
        ensures
            final(self).bytes() == splice(old(self).bytes(), (old(self).offset_spec() + 36) as int, le_i32(value)),
            final(self).offset_spec() == old(self).offset_spec(),
            final(self).limit_spec() == old(self).limit_spec(),
            final(self).wf() == old(self).wf(),
    {
        let offset = self.offset + 36;
        self.buf.put_i32_at(offset, value);
        proof {
            crate::bytes::lemma_le_round_trip();
        }
    }

    /// Field `events_stream_id`: 4 bytes at 40 in the block.
    pub fn events_stream_id(&mut self, value: i32)
        requires
            old(self).wf(),
            old(self).offset_spec() + 40 + 4 <= old(self).bytes().len(),
        ensures
            final(self).bytes() == splice(old(self).bytes(), (old(self).offset_spec() + 40) as int, le_i32(value)),
            final(self).offset_spec() == old(self).offset_spec(),
            final(self).limit_spec() == old(self).limit_spec(),
            final(self).wf() == old(self).wf(),
    {
        let offset = self.offset + 40;
        self.buf.put_i32_at(offset, value);
        proof {
            crate::bytes::lemma_le_round_trip();
        }
    }

    /// Field `header_length`: 4 bytes at 44 in the block.
    pub fn header_length(&mut self, value: i32)
        requires
            old(self).wf(),
            old(self).offset_spec() + 44 + 4 <= old(self).bytes().len(),
        ensures
            final(self).bytes() == splice(old(self).bytes(), (old(self).offset_spec() + 44) as int, le_i32(value)),
            final(self).offset_spec() == old(self).offset_spec(),
            final(self).limit_spec() == old(self).limit_spec(),
            final(self).wf() == old(self).wf(),
    {
        let offset = self.offset + 44;
        self.buf.put_i32_at(offset, value);
        proof {
            crate::bytes::lemma_le_round_trip();
        }
    }

    /// Field `error_buffer_length`: 4 bytes at 48 in the block.
    pub fn error_buffer_length(&mut self, value: i32)
        requires
            old(self).wf(),
            old(self).offset_spec() + 48 + 4 <= old(self).bytes().len(),
        ensures
            final(self).bytes() == splice(old(self).bytes(), (old(self).offset_spec() + 48) as int, le_i32(value)),
            final(self).offset_spec() == old(self).offset_spec(),
            final(self).limit_spec() == old(self).limit_spec(),
            final(self).wf() == old(self).wf(),
    {
        let offset = self.offset + 48;
        self.buf.put_i32_at(offset, value);
        proof {
            crate::bytes::lemma_le_round_trip();
        }
    }

    /// Variable-length field `control_channel`, written at the limit after its length; the
    /// limit moves past it.
    pub fn control_channel(&mut self, value: &[u8])
        requires
            old(self).wf(),
            value@.len() <= u32::MAX,
            old(self).limit_spec() + 4 + value@.len() <= old(self).bytes().len(),
        ensures
            final(self).wf(),
            final(self).bytes() == splice(
                old(self).bytes(),
                old(self).limit_spec() as int,
                crate::codec::var_field_bytes(value@),
            ),
            final(self).offset_spec() == old(self).offset_spec(),
            final(self).limit_spec() == old(self).limit_spec() + 4 + value@.len(),
    {
        let limit = self.limit;
        let data_length = value.len();
        self.limit = limit + 4 + data_length;
        proof {
            crate::bytes::lemma_le_round_trip();
        }
        self.buf.put_u32_at(limit, data_length as u32);
        self.buf.put_slice_at(limit + 4, value);
        proof {
            assert(self.buf@ =~= splice(
                old(self).bytes(),
                limit as int,
                crate::codec::var_field_bytes(value@),
            ));
        }
    }

    /// Variable-length field `local_control_channel`, written at the limit after its length; the
    /// limit moves past it.
    pub fn local_control_channel(&mut self, value: &[u8])
        requires
            old(self).wf(),
            value@.len() <= u32::MAX,
            old(self).limit_spec() + 4 + value@.len() <= old(self).bytes().len(),
        ensures
            final(self).wf(),
            final(self).bytes() == splice(
                old(self).bytes(),
                old(self).limit_spec() as int,
                crate::codec::var_field_bytes(value@),
            ),
            final(self).offset_spec() == old(self).offset_spec(),
            final(self).limit_spec() == old(self).limit_spec() + 4 + value@.len(),
    {
        let limit = self.limit;
        let data_length = value.len();
        self.limit = limit + 4 + data_length;
        proof {
            crate::bytes::lemma_le_round_trip();
        }
        self.buf.put_u32_at(limit, data_length as u32);
        self.buf.put_slice_at(limit + 4, value);
        proof {
            assert(self.buf@ =~= splice(
                old(self).bytes(),
                limit as int,
                crate::codec::var_field_bytes(value@),
            ));
        }
    }

    /// Variable-length field `events_channel`, written at the limit after its length; the
    /// limit moves past it.
    pub fn events_channel(&mut self, value: &[u8])
        requires
            old(self).wf(),
            value@.len() <= u32::MAX,
            old(self).limit_spec() + 4 + value@.len() <= old(self).bytes().len(),
        ensures
            final(self).wf(),
            final(self).bytes() == splice(
                old(self).bytes(),
                old(self).limit_spec() as int,
                crate::codec::var_field_bytes(value@),
            ),
            final(self).offset_spec() == old(self).offset_spec(),
            final(self).limit_spec() == old(self).limit_spec() + 4 + value@.len(),
    {
        let limit = self.limit;
        let data_length = value.len();
        self.limit = limit + 4 + data_length;
        proof {
            crate::bytes::lemma_le_round_trip();
        }
        self.buf.put_u32_at(limit, data_length as u32);
        self.buf.put_slice_at(limit + 4, value);
        proof {
            assert(self.buf@ =~= splice(
                old(self).bytes(),
                limit as int,
                crate::codec::var_field_bytes(value@),
            ));
        }
    }

    /// Variable-length field `aeron_directory`, written at the limit after its length; the
    /// limit moves past it.
    pub fn aeron_directory(&mut self, value: &[u8])
        requires
            old(self).wf(),
            value@.len() <= u32::MAX,
            old(self).limit_spec() + 4 + value@.len() <= old(self).bytes().len(),
        ensures
            final(self).wf(),
            final(self).bytes() == splice(
                old(self).bytes(),
                old(self).limit_spec() as int,
                crate::codec::var_field_bytes(value@),
            ),
            final(self).offset_spec() == old(self).offset_spec(),
            final(self).limit_spec() == old(self).limit_spec() + 4 + value@.len(),
    {
        let limit = self.limit;
        let data_length = value.len();
        self.limit = limit + 4 + data_length;
        proof {
            crate::bytes::lemma_le_round_trip();
        }
        self.buf.put_u32_at(limit, data_length as u32);
        self.buf.put_slice_at(limit + 4, value);
        proof {
            assert(self.buf@ =~= splice(
                old(self).bytes(),
                limit as int,
                crate::codec::var_field_bytes(value@),
            ));
        }
    }
}

#[derive(Debug, Default)]
pub struct MarkFileHeaderDecoder<'a> {
    buf: ReadBuf<'a>,
    initial_offset: usize,
    offset: usize,
    limit: usize,
    pub acting_block_length: u16,
    pub acting_version: u16,
}

impl<'a> Reader<'a> for MarkFileHeaderDecoder<'a> {
    fn get_buf(&self) -> &ReadBuf<'a> {
        &self.buf
    }
}

impl<'a> Decoder<'a> for MarkFileHeaderDecoder<'a> {
    closed spec fn limit_spec(&self) -> usize {
        self.limit
    }

    fn get_limit(&self) -> (r: usize) {
        self.limit
    }

    fn set_limit(&mut self, limit: usize) {
        self.limit = limit;
    }
}

impl<'a> MarkFileHeaderDecoder<'a> {
    /// The bytes being read.
    pub closed spec fn bytes(&self) -> Seq<u8> {
        self.buf@
    }

    /// Where the fixed block starts.
    pub closed spec fn offset_spec(&self) -> usize {
        self.offset
    }

    pub closed spec fn acting_version_spec(&self) -> u16 {
        self.acting_version
    }

    pub closed spec fn acting_block_length_spec(&self) -> u16 {
        self.acting_block_length
    }

    /// The block starts no later than the limit, and the bytes fit in memory.
    pub closed spec fn wf(&self) -> bool {
        self.offset <= self.limit && self.buf@.len() <= usize::MAX
    }

    /// A decoder over `buf` with nothing bound yet; `header` or `wrap` binds it.
    pub fn new(buf: ReadBuf<'a>) -> (r: Self)
        ensures
            r.wf(),
            r.bytes() == buf@,
            r.offset_spec() == 0,
            r.limit_spec() == 0,
            r.acting_block_length_spec() == 0,
            r.acting_version_spec() == 0,
    {
        let length = buf.len();
        assert(length == buf@.len());
        MarkFileHeaderDecoder { buf, initial_offset: 0, offset: 0, limit: 0, acting_block_length: 0, acting_version: 0 }
    }

    /// Binds to `buf` with the block at `offset`, as written by an encoder whose
    /// block had `acting_block_length` bytes and whose schema had `acting_version`.
    pub fn wrap(self, buf: ReadBuf<'a>, offset: usize, acting_block_length: u16, acting_version: u16) -> (r: Self)
        requires
            offset + acting_block_length <= usize::MAX,
        ensures
            r.wf(),
            r.bytes() == buf@,
            r.offset_spec() == offset,
            r.limit_spec() == offset + acting_block_length,
            r.acting_block_length_spec() == acting_block_length,
            r.acting_version_spec() == acting_version,
    {
        let limit = offset + acting_block_length as usize;
        let length = buf.len();
        assert(length == buf@.len());
        MarkFileHeaderDecoder { buf, initial_offset: offset, offset, limit, acting_block_length, acting_version }
    }

    /// The bytes read from the start of the block to the limit.
    pub fn encoded_length(&self) -> (r: usize)
        requires
            self.wf(),
        ensures
            r == self.limit_spec() - self.offset_spec(),
    {
        self.limit - self.offset
    }

    /// Reads the message header at the start of `buf` and binds to the block after
    /// it; refuses a buffer too short for the header or a header of another message.
    pub fn header(self, buf: ReadBuf<'a>) -> (r: Result<Self, SbeErr>)
        ensures
            buf@.len() < HEADER_LENGTH ==> r == Err::<Self, SbeErr>(SbeErr::OutOfBounds),
            buf@.len() >= HEADER_LENGTH ==> {
                let h = parse_header(window(buf@, 0, HEADER_LENGTH as int));
                &&& h.template_id != SBE_TEMPLATE_ID ==> r == Err::<Self, SbeErr>(SbeErr::TemplateMismatch)
                &&& h.template_id == SBE_TEMPLATE_ID ==> (r matches Ok(d) && {
                    &&& d.wf()
                    &&& d.bytes() == buf@
                    &&& d.offset_spec() == HEADER_LENGTH
                    &&& d.limit_spec() == HEADER_LENGTH + h.block_length
                    &&& d.acting_block_length_spec() == h.block_length
                    &&& d.acting_version_spec() == h.version
                })
            },
    {
        if buf.len() < HEADER_LENGTH {
            return Err(SbeErr::OutOfBounds);
        }
        let h = MessageHeader::decode(buf.get_slice_at(0, HEADER_LENGTH), 0);
        proof {
            assert(window(window(buf@, 0, HEADER_LENGTH as int), 0, HEADER_LENGTH as int) =~= window(buf@, 0, HEADER_LENGTH as int));
        }
        if h.template_id != SBE_TEMPLATE_ID {
            return Err(SbeErr::TemplateMismatch);
        }
        Ok(self.wrap(buf, HEADER_LENGTH, h.block_length, h.version))
    }

    /// Field `version`.
    pub fn version(&self) -> (r: i32)
        requires
            self.wf(),
            self.offset_spec() + 4 <= self.bytes().len(),
        ensures
            r == read_i32(window(self.bytes(), self.offset_spec() as int, 4)),
    {
        self.buf.get_i32_at(self.offset)
    }

    /// Field `activity_timestamp`.
    pub fn activity_timestamp(&self) -> (r: i64)
        requires
            self.wf(),
            self.offset_spec() + 8 + 8 <= self.bytes().len(),
        ensures
            r == read_i64(window(self.bytes(), self.offset_spec() + 8 as int, 8)),
    {
        self.buf.get_i64_at(self.offset + 8)
    }

    /// Field `start_timestamp`.
    pub fn start_timestamp(&self) -> (r: i64)
        requires
            self.wf(),
            self.offset_spec() + 16 + 8 <= self.bytes().len(),
        ensures
            r == read_i64(window(self.bytes(), self.offset_spec() + 16 as int, 8)),
    {
        self.buf.get_i64_at(self.offset + 16)
    }

    /// Field `pid`.
    pub fn pid(&self) -> (r: i64)
        requires
            self.wf(),
            self.offset_spec() + 24 + 8 <= self.bytes().len(),
        ensures
            r == read_i64(window(self.bytes(), self.offset_spec() + 24 as int, 8)),
    {
        self.buf.get_i64_at(self.offset + 24)
    }

    /// Field `control_stream_id`.
    pub fn control_stream_id(&self) -> (r: i32)
        requires
            self.wf(),
            self.offset_spec() + 32 + 4 <= self.bytes().len(),
        ensures
            r == read_i32(window(self.bytes(), self.offset_spec() + 32 as int, 4)),
    {
        self.buf.get_i32_at(self.offset + 32)
    }

    /// Field `local_control_stream_id`.
    pub fn local_control_stream_id(&self) -> (r: i32)
        requires
            self.wf(),
            self.offset_spec() + 36 + 4 <= self.bytes().len(),
        ensures
            r == read_i32(window(self.bytes(), self.offset_spec() + 36 as int, 4)),
    {
        self.buf.get_i32_at(self.offset + 36)
    }

    /// Field `events_stream_id`.
    pub fn events_stream_id(&self) -> (r: i32)
        requires
            self.wf(),
            self.offset_spec() + 40 + 4 <= self.bytes().len(),
        ensures
            r == read_i32(window(self.bytes(), self.offset_spec() + 40 as int, 4)),
    {
        self.buf.get_i32_at(self.offset + 40)
    }

    /// Optional field `header_length`: none before schema version 1 or when it holds 0.
    pub fn header_length(&self) -> (r: Option<i32>)
        requires
            self.wf(),
            self.offset_spec() + 44 + 4 <= self.bytes().len(),
        ensures
            r == (if self.acting_version_spec() < 1 || read_i32(window(self.bytes(), self.offset_spec() + 44 as int, 4)) == 0 {
                None
            } else {
                Some(read_i32(window(self.bytes(), self.offset_spec() + 44 as int, 4)))
            }),
    {
        if self.acting_version < 1 {
            return None;
        }
        let value = self.buf.get_i32_at(self.offset + 44);
        if value == 0 {
            None
        } else {
            Some(value)
        }
    }

    /// Optional field `error_buffer_length`: none before schema version 1 or when it holds 0.
    pub fn error_buffer_length(&self) -> (r: Option<i32>)
        requires
            self.wf(),
            self.offset_spec() + 48 + 4 <= self.bytes().len(),
        ensures
            r == (if self.acting_version_spec() < 1 || read_i32(window(self.bytes(), self.offset_spec() + 48 as int, 4)) == 0 {
                None
            } else {
                Some(read_i32(window(self.bytes(), self.offset_spec() + 48 as int, 4)))
            }),
    {
        if self.acting_version < 1 {
            return None;
        }
        let value = self.buf.get_i32_at(self.offset + 48);
        if value == 0 {
            None
        } else {
            Some(value)
        }
    }

    /// Finds variable-length field `control_channel` at the limit: where its bytes start and
    /// how many there are. The limit moves past it.
    pub fn control_channel_decoder(&mut self) -> (r: (usize, usize))
        requires
            old(self).wf(),
            old(self).limit_spec() + 4 + read_u32(window(old(self).bytes(), old(self).limit_spec() as int, 4))
                <= old(self).bytes().len(),
        ensures
            final(self).wf(),
            r.0 == old(self).limit_spec() + 4,
            r.1 == read_u32(window(old(self).bytes(), old(self).limit_spec() as int, 4)),
            final(self).limit_spec() == r.0 + r.1,
            final(self).bytes() == old(self).bytes(),
            final(self).offset_spec() == old(self).offset_spec(),
            final(self).acting_version_spec() == old(self).acting_version_spec(),
    {
        let offset = self.limit;
        let data_length = self.buf.get_u32_at(offset) as usize;
        self.limit = offset + 4 + data_length;
        (offset + 4, data_length)
    }

    /// The bytes of variable-length field `control_channel` found by `control_channel_decoder`.
    pub fn control_channel_slice(&self, coordinates: (usize, usize)) -> (r: &'a [u8])
        requires
            self.wf(),
            coordinates.0 + coordinates.1 <= self.bytes().len(),
        ensures
            r@ == window(self.bytes(), coordinates.0 as int, coordinates.1 as int),
    {
        self.buf.get_slice_at(coordinates.0, coordinates.1)
    }

    /// Finds variable-length field `local_control_channel` at the limit: where its bytes start and
    /// how many there are. The limit moves past it.
    pub fn local_control_channel_decoder(&mut self) -> (r: (usize, usize))
        requires
            old(self).wf(),
            old(self).limit_spec() + 4 + read_u32(window(old(self).bytes(), old(self).limit_spec() as int, 4))
                <= old(self).bytes().len(),
        ensures
            final(self).wf(),
            r.0 == old(self).limit_spec() + 4,
            r.1 == read_u32(window(old(self).bytes(), old(self).limit_spec() as int, 4)),
            final(self).limit_spec() == r.0 + r.1,
            final(self).bytes() == old(self).bytes(),
            final(self).offset_spec() == old(self).offset_spec(),
            final(self).acting_version_spec() == old(self).acting_version_spec(),
    {
        let offset = self.limit;
        let data_length = self.buf.get_u32_at(offset) as usize;
        self.limit = offset + 4 + data_length;
        (offset + 4, data_length)
    }

    /// The bytes of variable-length field `local_control_channel` found by `local_control_channel_decoder`.
    pub fn local_control_channel_slice(&self, coordinates: (usize, usize)) -> (r: &'a [u8])
        requires
            self.wf(),
            coordinates.0 + coordinates.1 <= self.bytes().len(),
        ensures
            r@ == window(self.bytes(), coordinates.0 as int, coordinates.1 as int),
    {
        self.buf.get_slice_at(coordinates.0, coordinates.1)
    }

    /// Finds variable-length field `events_channel` at the limit: where its bytes start and
    /// how many there are. The limit moves past it.
    pub fn events_channel_decoder(&mut self) -> (r: (usize, usize))
        requires
            old(self).wf(),
            old(self).limit_spec() + 4 + read_u32(window(old(self).bytes(), old(self).limit_spec() as int, 4))
                <= old(self).bytes().len(),
        ensures
            final(self).wf(),
            r.0 == old(self).limit_spec() + 4,
            r.1 == read_u32(window(old(self).bytes(), old(self).limit_spec() as int, 4)),
            final(self).limit_spec() == r.0 + r.1,
            final(self).bytes() == old(self).bytes(),
            final(self).offset_spec() == old(self).offset_spec(),
            final(self).acting_version_spec() == old(self).acting_version_spec(),
    {
        let offset = self.limit;
        let data_length = self.buf.get_u32_at(offset) as usize;
        self.limit = offset + 4 + data_length;
        (offset + 4, data_length)
    }

    /// The bytes of variable-length field `events_channel` found by `events_channel_decoder`.
    pub fn events_channel_slice(&self, coordinates: (usize, usize)) -> (r: &'a [u8])
        requires
            self.wf(),
            coordinates.0 + coordinates.1 <= self.bytes().len(),
        ensures
            r@ == window(self.bytes(), coordinates.0 as int, coordinates.1 as int),
    {
        self.buf.get_slice_at(coordinates.0, coordinates.1)
    }

    /// Finds variable-length field `aeron_directory` at the limit: where its bytes start and
    /// how many there are. The limit moves past it.
    pub fn aeron_directory_decoder(&mut self) -> (r: (usize, usize))
        requires
            old(self).wf(),
            old(self).limit_spec() + 4 + read_u32(window(old(self).bytes(), old(self).limit_spec() as int, 4))
                <= old(self).bytes().len(),
        ensures
            final(self).wf(),
            r.0 == old(self).limit_spec() + 4,
            r.1 == read_u32(window(old(self).bytes(), old(self).limit_spec() as int, 4)),
            final(self).limit_spec() == r.0 + r.1,
            final(self).bytes() == old(self).bytes(),
            final(self).offset_spec() == old(self).offset_spec(),
            final(self).acting_version_spec() == old(self).acting_version_spec(),
    {
        let offset = self.limit;
        let data_length = self.buf.get_u32_at(offset) as usize;
        self.limit = offset + 4 + data_length;
        (offset + 4, data_length)
    }

    /// The bytes of variable-length field `aeron_directory` found by `aeron_directory_decoder`.
    pub fn aeron_directory_slice(&self, coordinates: (usize, usize)) -> (r: &'a [u8])
        requires
            self.wf(),
            coordinates.0 + coordinates.1 <= self.bytes().len(),
        ensures
            r@ == window(self.bytes(), coordinates.0 as int, coordinates.1 as int),
    {
        self.buf.get_slice_at(coordinates.0, coordinates.1)
    }
}

} // verus!
