//! Fixed-size views over byte regions for the message codecs: a reader over
//! borrowed bytes and a writer over owned bytes, both little-endian and bounds-checked.

use crate::bytes::{
    le_i16, le_i32, le_i64, le_u16, le_u32, le_u64, read_i16, read_i32, read_i64, read_u16,
    read_u32, read_u64, splice, window,
};
use vstd::prelude::*;

verus! {

/// Why a codec refused a buffer.
#[derive(Clone, Copy, Debug, PartialEq, Eq, Structural, Hash)]
pub enum SbeErr {
    /// The buffer is too short for what was asked of it.
    OutOfBounds,
    /// The message header names another message.
    TemplateMismatch,
}

#[derive(Clone, Copy, Debug, PartialEq, Eq, Hash)]
pub enum Either<L, R> {
    Left(L),
    Right(R),
}

/// Gives access to the bytes a codec writes.
pub trait Writer: Sized {
    fn get_buf_mut(&mut self) -> &mut WriteBuf;
}

/// Gives access to the bytes a codec reads.
pub trait Reader<'a>: Sized {
    fn get_buf(&self) -> &ReadBuf<'a>;
}

/// A decoder whose variable-length fields are read at a moving limit.
pub trait Decoder<'a>: Reader<'a> {
    spec fn limit_spec(&self) -> usize;

    fn get_limit(&self) -> (r: usize)
        ensures
            r == self.limit_spec(),
    ;

    fn set_limit(&mut self, limit: usize)
        ensures
            final(self).limit_spec() == limit,
    ;
}

/// An encoder whose variable-length fields are written at a moving limit.
pub trait Encoder: Sized {
    spec fn limit_spec(&self) -> usize;

    fn get_limit(&self) -> (r: usize)
        ensures
            r == self.limit_spec(),
    ;

    fn set_limit(&mut self, limit: usize)
        ensures
            final(self).limit_spec() == limit,
    ;
}

/// Reads little-endian values from borrowed bytes.
#[derive(Debug, Default)]
pub struct ReadBuf<'a> {
    data: &'a [u8],
}

impl<'a> View for ReadBuf<'a> {
    type V = Seq<u8>;

    closed spec fn view(&self) -> Seq<u8> {
        self.data@
    }
}

impl<'a> Reader<'a> for ReadBuf<'a> {
    fn get_buf(&self) -> &ReadBuf<'a> {
        self
    }
}

impl<'a> ReadBuf<'a> {
    pub fn new(data: &'a [u8]) -> (r: Self)
        ensures
            r@ == data@,
    {
        Self { data }
    }

    pub fn len(&self) -> (r: usize)
        ensures
            r == self@.len(),
    {
        self.data.len()
    }

    pub fn get_u8_at(&self, index: usize) -> (r: u8)
        requires
            index + 1 <= self@.len(),
        ensures
            r == self@[index as int],
    {
        self.data[index]
    }

    pub fn get_i8_at(&self, index: usize) -> (r: i8)
        requires
            index + 1 <= self@.len(),
        ensures
            r == self@[index as int] as i8,
    {
        #[verifier::truncate] (self.data[index] as i8)
    }

    pub fn get_i16_at(&self, index: usize) -> (r: i16)
        requires
            index + 2 <= self@.len(),
        ensures
            r == read_i16(window(self@, index as int, 2)),
    {
        crate::bytes::read_i16_at(self.data, index)
    }

    pub fn get_i32_at(&self, index: usize) -> (r: i32)
        requires
            index + 4 <= self@.len(),
        ensures
            r == read_i32(window(self@, index as int, 4)),
    {
        crate::bytes::read_i32_at(self.data, index)
    }

    pub fn get_i64_at(&self, index: usize) -> (r: i64)
        requires
            index + 8 <= self@.len(),
        ensures
            r == read_i64(window(self@, index as int, 8)),
    {
        crate::bytes::read_i64_at(self.data, index)
    }

    pub fn get_u16_at(&self, index: usize) -> (r: u16)
        requires
            index + 2 <= self@.len(),
        ensures
            r == read_u16(window(self@, index as int, 2)),
    {
        crate::bytes::read_u16_at(self.data, index)
    }

    pub fn get_u32_at(&self, index: usize) -> (r: u32)
        requires
            index + 4 <= self@.len(),
        ensures
            r == read_u32(window(self@, index as int, 4)),
    {
        crate::bytes::read_u32_at(self.data, index)
    }

    pub fn get_u64_at(&self, index: usize) -> (r: u64)
        requires
            index + 8 <= self@.len(),
        ensures
            r == read_u64(window(self@, index as int, 8)),
    {
        crate::bytes::read_u64_at(self.data, index)
    }

    pub fn get_slice_at(&self, index: usize, len: usize) -> (r: &'a [u8])
        requires
            index + len <= self@.len(),
        ensures
            r@ == window(self@, index as int, len as int),
    {
        let data: &'a [u8] = self.data;
        assert(data@.len() == data.len());
        &data[index..index + len]
    }
}

/// Writes little-endian values into owned bytes of a fixed length.
#[derive(Debug, Default)]
pub struct WriteBuf {
    data: Vec<u8>,
}

impl View for WriteBuf {
    type V = Seq<u8>;

    closed spec fn view(&self) -> Seq<u8> {
        self.data@
    }
}

impl WriteBuf {
    pub fn new(data: Vec<u8>) -> (r: Self)
        ensures
            r@ == data@,
    {
        Self { data }
    }

    /// The bytes, given back.
    pub fn into_inner(self) -> (r: Vec<u8>)
        ensures
            r@ == self@,
    {
        self.data
    }

    pub fn as_slice(&self) -> (r: &[u8])
        ensures
            r@ == self@,
    {
        self.data.as_slice()
    }

    pub fn len(&self) -> (r: usize)
        ensures
            r == self@.len(),
    {
        self.data.len()
    }

    /// Writes `bytes` at `index`; how many were written.
    pub fn put_bytes_at(&mut self, index: usize, bytes: &[u8]) -> (r: usize)
        requires
            index + bytes@.len() <= old(self)@.len(),
        ensures
            final(self)@ == splice(old(self)@, index as int, bytes@),
            r == bytes@.len(),
    {
        crate::bytes::write_slice(&mut self.data, index, bytes);
        bytes.len()
    }

    /// Writes `src` at `index`; how many bytes were written.
    pub fn put_slice_at(&mut self, index: usize, src: &[u8]) -> (r: usize)
        requires
            index + src@.len() <= old(self)@.len(),
        ensures
            final(self)@ == splice(old(self)@, index as int, src@),
            r == src@.len(),
    {
        crate::bytes::write_slice(&mut self.data, index, src);
        src.len()
    }

    pub fn put_u8_at(&mut self, index: usize, value: u8)
        requires
            index + 1 <= old(self)@.len(),
        ensures
            final(self)@ == splice(old(self)@, index as int, seq![value]),
    {
        crate::bytes::write_u8(&mut self.data, index, value);
    }

    pub fn put_i8_at(&mut self, index: usize, value: i8)
        requires
            index + 1 <= old(self)@.len(),
        ensures
            final(self)@ == splice(old(self)@, index as int, seq![value as u8]),
    {
        crate::bytes::write_u8(&mut self.data, index, #[verifier::truncate] (value as u8));
    }

    pub fn put_i16_at(&mut self, index: usize, value: i16)
        requires
            index + 2 <= old(self)@.len(),
        ensures
            final(self)@ == splice(old(self)@, index as int, le_i16(value)),
    {
        crate::bytes::write_i16(&mut self.data, index, value);
    }

    pub fn put_i32_at(&mut self, index: usize, value: i32)
        requires
            index + 4 <= old(self)@.len(),
        ensures
            final(self)@ == splice(old(self)@, index as int, le_i32(value)),
    {
        crate::bytes::write_i32(&mut self.data, index, value);
    }

    pub fn put_i64_at(&mut self, index: usize, value: i64)
        requires
            index + 8 <= old(self)@.len(),
        ensures
            final(self)@ == splice(old(self)@, index as int, le_i64(value)),
    {
        crate::bytes::write_i64(&mut self.data, index, value);
    }

    pub fn put_u16_at(&mut self, index: usize, value: u16)
        requires
            index + 2 <= old(self)@.len(),
        ensures
            final(self)@ == splice(old(self)@, index as int, le_u16(value)),
    {
        crate::bytes::write_u16(&mut self.data, index, value);
    }

    pub fn put_u32_at(&mut self, index: usize, value: u32)
        requires
            index + 4 <= old(self)@.len(),
        ensures
            final(self)@ == splice(old(self)@, index as int, le_u32(value)),
    {
        crate::bytes::write_u32(&mut self.data, index, value);
    }

    pub fn put_u64_at(&mut self, index: usize, value: u64)
        requires
            index + 8 <= old(self)@.len(),
        ensures
            final(self)@ == splice(old(self)@, index as int, le_u64(value)),
    {
        crate::bytes::write_u64(&mut self.data, index, value);
    }
}

} // verus!
