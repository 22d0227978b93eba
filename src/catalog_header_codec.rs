//! The catalog file's header: the catalog format version, the record length,
//! the next recording id and the alignment.

use crate::bytes::{le_i32, le_i64, read_i32, read_i64, splice, window};
use crate::codec::{header_bytes, parse_header, MessageHeader, HEADER_LENGTH};
use crate::sbe::{Decoder, Encoder, ReadBuf, Reader, SbeErr, WriteBuf, Writer};
use vstd::prelude::*;

verus! {

pub const SBE_BLOCK_LENGTH: u16 = 32;
pub const SBE_TEMPLATE_ID: u16 = 20;
pub const SBE_SCHEMA_ID: u16 = 101;
pub const SBE_SCHEMA_VERSION: u16 = 7;

/// The header that starts this message.
pub open spec fn message_header() -> MessageHeader {
    MessageHeader {
        block_length: SBE_BLOCK_LENGTH,
        template_id: SBE_TEMPLATE_ID,
        schema_id: SBE_SCHEMA_ID,
        version: SBE_SCHEMA_VERSION,
    }
}

#[derive(Debug, Default)]
pub struct CatalogHeaderEncoder {
    buf: WriteBuf,
    initial_offset: usize,
    offset: usize,
    limit: usize,
}

impl Writer for CatalogHeaderEncoder {
    fn get_buf_mut(&mut self) -> &mut WriteBuf {
        &mut self.buf
    }
}

impl Encoder for CatalogHeaderEncoder {
    closed spec fn limit_spec(&self) -> usize {
        self.limit
    }

    fn get_limit(&self) -> (r: usize) {
        self.limit
    }

    fn set_limit(&mut self, limit: usize) {
        self.limit = limit;
    }
}

impl CatalogHeaderEncoder {
    /// The bytes being written.
    pub closed spec fn bytes(&self) -> Seq<u8> {
        self.buf@
    }

    /// Where the fixed block starts.
    pub closed spec fn offset_spec(&self) -> usize {
        self.offset
    }

    /// The block starts no later than the limit, and the bytes fit in memory.
    pub closed spec fn wf(&self) -> bool {
        self.offset <= self.limit && self.buf@.len() <= usize::MAX
    }

    /// An encoder over no bytes, to be bound with `wrap`.
    pub fn new() -> (r: Self)
        ensures
            r.wf(),
            r.bytes() == Seq::<u8>::empty(),
            r.offset_spec() == 0,
            r.limit_spec() == 0,
    {
        let buf = WriteBuf::new(Vec::new());
        CatalogHeaderEncoder { buf, initial_offset: 0, offset: 0, limit: 0 }
    }

    /// Binds to `buf` with the fixed block at `offset`.
    pub fn wrap(self, buf: WriteBuf, offset: usize) -> (r: Self)
        requires
            offset + SBE_BLOCK_LENGTH <= usize::MAX,
        ensures
            r.wf(),
            r.bytes() == buf@,
            r.offset_spec() == offset,
            r.limit_spec() == offset + SBE_BLOCK_LENGTH,
    {
        let limit = offset + SBE_BLOCK_LENGTH as usize;
        let length = buf.len();
        assert(length == buf@.len());
        CatalogHeaderEncoder { buf, initial_offset: offset, offset, limit }
    }

    /// The bytes written from the start of the block to the limit.
    pub fn encoded_length(&self) -> (r: usize)
        requires
            self.wf(),
        ensures
            r == self.limit_spec() - self.offset_spec(),
    {
        self.limit - self.offset
    }

    /// Writes this message's header at `offset`; the block is written after it.
    pub fn header(self, offset: usize) -> (r: Self)
        requires
            self.wf(),
            offset + HEADER_LENGTH <= self.bytes().len(),
        ensures
            r.bytes() == splice(self.bytes(), offset as int, header_bytes(message_header())),
            r.offset_spec() == self.offset_spec(),
            r.limit_spec() == self.limit_spec(),
            r.wf() == self.wf(),
    {
        let mut r = self;
        r.buf.put_u16_at(offset, SBE_BLOCK_LENGTH);
        r.buf.put_u16_at(offset + 2, SBE_TEMPLATE_ID);
        r.buf.put_u16_at(offset + 4, SBE_SCHEMA_ID);
        r.buf.put_u16_at(offset + 6, SBE_SCHEMA_VERSION);
        proof {
            crate::bytes::lemma_le_round_trip();
            assert(r.buf@ =~= splice(self.bytes(), offset as int, header_bytes(message_header())));
        }
        r
    }

    /// The written bytes, given back.
    pub fn into_inner(self) -> (r: WriteBuf)
        ensures
            r@ == self.bytes(),
    {
        self.buf
    }

    /// Field `version`: 4 bytes at 0 in the block.
    pub fn version(&mut self, value: i32)
        requires
            old(self).wf(),
            old(self).offset_spec() + 4 <= old(self).bytes().len(),
        ensures
            final(self).bytes() == splice(old(self).bytes(), (old(self).offset_spec()) as int, le_i32(value)),
            final(self).offset_spec() == old(self).offset_spec(),
            final(self).limit_spec() == old(self).limit_spec(),
            final(self).wf() == old(self).wf(),
    {
        let offset = self.offset;
        self.buf.put_i32_at(offset, value);
        proof {
            crate::bytes::lemma_le_round_trip();
        }
    }

    /// Field `length`: 4 bytes at 4 in the block.
    pub fn length(&mut self, value: i32)
        requires
            old(self).wf(),
            old(self).offset_spec() + 4 + 4 <= old(self).bytes().len(),
        ensures
            final(self).bytes() == splice(old(self).bytes(), (old(self).offset_spec() + 4) as int, le_i32(value)),
            final(self).offset_spec() == old(self).offset_spec(),
            final(self).limit_spec() == old(self).limit_spec(),
            final(self).wf() == old(self).wf(),
    {
        let offset = self.offset + 4;
        self.buf.put_i32_at(offset, value);
        proof {
            crate::bytes::lemma_le_round_trip();
        }
    }

    /// Field `next_recording_id`: 8 bytes at 8 in the block.
    pub fn next_recording_id(&mut self, value: i64)
        requires
            old(self).wf(),
            old(self).offset_spec() + 8 + 8 <= old(self).bytes().len(),
        ensures
            final(self).bytes() == splice(old(self).bytes(), (old(self).offset_spec() + 8) as int, le_i64(value)),
            final(self).offset_spec() == old(self).offset_spec(),
            final(self).limit_spec() == old(self).limit_spec(),
            final(self).wf() == old(self).wf(),
    {
        let offset = self.offset + 8;
        self.buf.put_i64_at(offset, value);
        proof {
            crate::bytes::lemma_le_round_trip();
        }
    }

    /// Field `alignment`: 4 bytes at 16 in the block.
    pub fn alignment(&mut self, value: i32)
        requires
            old(self).wf(),
            old(self).offset_spec() + 16 + 4 <= old(self).bytes().len(),
        ensures
            final(self).bytes() == splice(old(self).bytes(), (old(self).offset_spec() + 16) as int, le_i32(value)),
            final(self).offset_spec() == old(self).offset_spec(),
            final(self).limit_spec() == old(self).limit_spec(),
            final(self).wf() == old(self).wf(),
    {
        let offset = self.offset + 16;
        self.buf.put_i32_at(offset, value);
        proof {
            crate::bytes::lemma_le_round_trip();
        }
    }

    /// Field `reserved`: 1 bytes at 31 in the block.
    pub fn reserved(&mut self, value: i8)
        requires
            old(self).wf(),
            old(self).offset_spec() + 31 + 1 <= old(self).bytes().len(),
        ensures
            final(self).bytes() == splice(old(self).bytes(), (old(self).offset_spec() + 31) as int, seq![value as u8]),
            final(self).offset_spec() == old(self).offset_spec(),
            final(self).limit_spec() == old(self).limit_spec(),
            final(self).wf() == old(self).wf(),
    {
        let offset = self.offset + 31;
        self.buf.put_i8_at(offset, value);
        proof {
            crate::bytes::lemma_le_round_trip();
        }
    }
}

#[derive(Debug, Default)]
pub struct CatalogHeaderDecoder<'a> {
    buf: ReadBuf<'a>,
    initial_offset: usize,
    offset: usize,
    limit: usize,
    pub acting_block_length: u16,
    pub acting_version: u16,
}

impl<'a> Reader<'a> for CatalogHeaderDecoder<'a> {
    fn get_buf(&self) -> &ReadBuf<'a> {
        &self.buf
    }
}

impl<'a> Decoder<'a> for CatalogHeaderDecoder<'a> {
    closed spec fn limit_spec(&self) -> usize {
        self.limit
    }

    fn get_limit(&self) -> (r: usize) {
        self.limit
    }

    fn set_limit(&mut self, limit: usize) {
        self.limit = limit;
    }
}

impl<'a> CatalogHeaderDecoder<'a> {
    /// The bytes being read.
    pub closed spec fn bytes(&self) -> Seq<u8> {
        self.buf@
    }

    /// Where the fixed block starts.
    pub closed spec fn offset_spec(&self) -> usize {
        self.offset
    }

    pub closed spec fn acting_version_spec(&self) -> u16 {
        self.acting_version
    }

    pub closed spec fn acting_block_length_spec(&self) -> u16 {
        self.acting_block_length
    }

    /// The block starts no later than the limit, and the bytes fit in memory.
    pub closed spec fn wf(&self) -> bool {
        self.offset <= self.limit && self.buf@.len() <= usize::MAX
    }

    /// A decoder over `buf` with nothing bound yet; `header` or `wrap` binds it.
    pub fn new(buf: ReadBuf<'a>) -> (r: Self)
        ensures
            r.wf(),
            r.bytes() == buf@,
            r.offset_spec() == 0,
            r.limit_spec() == 0,
            r.acting_block_length_spec() == 0,
            r.acting_version_spec() == 0,
    {
        let length = buf.len();
        assert(length == buf@.len());
        CatalogHeaderDecoder { buf, initial_offset: 0, offset: 0, limit: 0, acting_block_length: 0, acting_version: 0 }
    }

    /// Binds to `buf` with the block at `offset`, as written by an encoder whose
    /// block had `acting_block_length` bytes and whose schema had `acting_version`.
    pub fn wrap(self, buf: ReadBuf<'a>, offset: usize, acting_block_length: u16, acting_version: u16) -> (r: Self)
        requires
            offset + acting_block_length <= usize::MAX,
        ensures
            r.wf(),
            r.bytes() == buf@,
            r.offset_spec() == offset,
            r.limit_spec() == offset + acting_block_length,
            r.acting_block_length_spec() == acting_block_length,
            r.acting_version_spec() == acting_version,
    {
        let limit = offset + acting_block_length as usize;
        let length = buf.len();
        assert(length == buf@.len());
        CatalogHeaderDecoder { buf, initial_offset: offset, offset, limit, acting_block_length, acting_version }
    }

    /// The bytes read from the start of the block to the limit.
    pub fn encoded_length(&self) -> (r: usize)
        requires
            self.wf(),
        ensures
            r == self.limit_spec() - self.offset_spec(),
    {
        self.limit - self.offset
    }

    /// Reads the message header at the start of `buf` and binds to the block after
    /// it; refuses a buffer too short for the header or a header of another message.
    pub fn header(self, buf: ReadBuf<'a>) -> (r: Result<Self, SbeErr>)
        ensures
            buf@.len() < HEADER_LENGTH ==> r == Err::<Self, SbeErr>(SbeErr::OutOfBounds),
            buf@.len() >= HEADER_LENGTH ==> {
                let h = parse_header(window(buf@, 0, HEADER_LENGTH as int));
                &&& h.template_id != SBE_TEMPLATE_ID ==> r == Err::<Self, SbeErr>(SbeErr::TemplateMismatch)
                &&& h.template_id == SBE_TEMPLATE_ID ==> (r matches Ok(d) && {
                    &&& d.wf()
                    &&& d.bytes() == buf@
                    &&& d.offset_spec() == HEADER_LENGTH
                    &&& d.limit_spec() == HEADER_LENGTH + h.block_length
                    &&& d.acting_block_length_spec() == h.block_length
                    &&& d.acting_version_spec() == h.version
                })
            },
    {
        if buf.len() < HEADER_LENGTH {
            return Err(SbeErr::OutOfBounds);
        }
        let h = MessageHeader::decode(buf.get_slice_at(0, HEADER_LENGTH), 0);
        proof {
            assert(window(window(buf@, 0, HEADER_LENGTH as int), 0, HEADER_LENGTH as int) =~= window(buf@, 0, HEADER_LENGTH as int));
        }
        if h.template_id != SBE_TEMPLATE_ID {
            return Err(SbeErr::TemplateMismatch);
        }
        Ok(self.wrap(buf, HEADER_LENGTH, h.block_length, h.version))
    }

    /// Field `version`.
    pub fn version(&self) -> (r: i32)
        requires
            self.wf(),
            self.offset_spec() + 4 <= self.bytes().len(),
        ensures
            r == read_i32(window(self.bytes(), self.offset_spec() as int, 4)),
    {
        self.buf.get_i32_at(self.offset)
    }

    /// Field `length`.
    pub fn length(&self) -> (r: i32)
        requires
            self.wf(),
            self.offset_spec() + 4 + 4 <= self.bytes().len(),
        ensures
            r == read_i32(window(self.bytes(), self.offset_spec() + 4 as int, 4)),
    {
        self.buf.get_i32_at(self.offset + 4)
    }

    /// Field `next_recording_id`.
    pub fn next_recording_id(&self) -> (r: i64)
        requires
            self.wf(),
            self.offset_spec() + 8 + 8 <= self.bytes().len(),
        ensures
            r == read_i64(window(self.bytes(), self.offset_spec() + 8 as int, 8)),
    {
        self.buf.get_i64_at(self.offset + 8)
    }

    /// Field `alignment`.
    pub fn alignment(&self) -> (r: i32)
        requires
            self.wf(),
            self.offset_spec() + 16 + 4 <= self.bytes().len(),
        ensures
            r == read_i32(window(self.bytes(), self.offset_spec() + 16 as int, 4)),
    {
        self.buf.get_i32_at(self.offset + 16)
    }

    /// Field `reserved`.
    pub fn reserved(&self) -> (r: i8)
        requires
            self.wf(),
            self.offset_spec() + 31 + 1 <= self.bytes().len(),
        ensures
            r == self.bytes()[(self.offset_spec() + 31) as int] as i8,
    {
        self.buf.get_i8_at(self.offset + 31)
    }
}

} // verus!
