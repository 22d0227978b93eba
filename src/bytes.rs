//! Little-endian reads and writes on byte vectors.

use vstd::bytes::{
    spec_u16_from_le_bytes, spec_u16_to_le_bytes, spec_u32_from_le_bytes, spec_u32_to_le_bytes,
    spec_u64_from_le_bytes, spec_u64_to_le_bytes,
};
use vstd::prelude::*;

verus! {

/// `s` with the bytes from `at` on replaced by `t`; the length is kept.
pub open spec fn splice(s: Seq<u8>, at: int, t: Seq<u8>) -> Seq<u8> {
    s.subrange(0, at) + t + s.subrange(at + t.len(), s.len() as int)
}

/// The `len` bytes of `s` that start at `at`.
pub open spec fn window(s: Seq<u8>, at: int, len: int) -> Seq<u8> {
    s.subrange(at, at + len)
}

pub open spec fn le_u16(v: u16) -> Seq<u8> {
    spec_u16_to_le_bytes(v)
}

pub open spec fn le_u32(v: u32) -> Seq<u8> {
    spec_u32_to_le_bytes(v)
}

pub open spec fn le_u64(v: u64) -> Seq<u8> {
    spec_u64_to_le_bytes(v)
}

pub open spec fn le_i16(v: i16) -> Seq<u8> {
    spec_u16_to_le_bytes(v as u16)
}

pub open spec fn le_i32(v: i32) -> Seq<u8> {
    spec_u32_to_le_bytes(v as u32)
}

pub open spec fn le_i64(v: i64) -> Seq<u8> {
    spec_u64_to_le_bytes(v as u64)
}

pub open spec fn read_u16(s: Seq<u8>) -> u16 {
    spec_u16_from_le_bytes(s)
}

pub open spec fn read_u32(s: Seq<u8>) -> u32 {
    spec_u32_from_le_bytes(s)
}

pub open spec fn read_u64(s: Seq<u8>) -> u64 {
    spec_u64_from_le_bytes(s)
}

pub open spec fn read_i16(s: Seq<u8>) -> i16 {
    spec_u16_from_le_bytes(s) as i16
}

pub open spec fn read_i32(s: Seq<u8>) -> i32 {
    spec_u32_from_le_bytes(s) as i32
}

pub open spec fn read_i64(s: Seq<u8>) -> i64 {
    spec_u64_from_le_bytes(s) as i64
}

/// After `t` is written at `at`, the length is kept and `t` is read back there.
pub proof fn lemma_splice_reads_back(s: Seq<u8>, at: int, t: Seq<u8>)
    requires
        0 <= at,
        at + t.len() <= s.len(),
    ensures
        splice(s, at, t).len() == s.len(),
        window(splice(s, at, t), at, t.len() as int) == t,
{
    assert(window(splice(s, at, t), at, t.len() as int) =~= t);
}

/// Writing `t` at `at` leaves every window that does not overlap it as it was.
pub proof fn lemma_splice_keeps_others(s: Seq<u8>, at: int, t: Seq<u8>, i: int, n: int)
    requires
        0 <= at,
        at + t.len() <= s.len(),
        0 <= i,
        0 <= n,
        i + n <= s.len(),
        i + n <= at || at + t.len() <= i,
    ensures
        window(splice(s, at, t), i, n) == window(s, i, n),
{
    assert(window(splice(s, at, t), i, n) =~= window(s, i, n));
}

/// Each width's encoding has its width, and reading it back gives the value.
pub proof fn lemma_le_round_trip()
    ensures
        forall|v: u16| #[trigger] le_u16(v).len() == 2 && read_u16(le_u16(v)) == v,
        forall|v: u32| #[trigger] le_u32(v).len() == 4 && read_u32(le_u32(v)) == v,
        forall|v: u64| #[trigger] le_u64(v).len() == 8 && read_u64(le_u64(v)) == v,
        forall|v: i16| #[trigger] le_i16(v).len() == 2 && read_i16(le_i16(v)) == v,
        forall|v: i32| #[trigger] le_i32(v).len() == 4 && read_i32(le_i32(v)) == v,
        forall|v: i64| #[trigger] le_i64(v).len() == 8 && read_i64(le_i64(v)) == v,
{
    vstd::bytes::lemma_auto_spec_u16_to_from_le_bytes();
    vstd::bytes::lemma_auto_spec_u32_to_from_le_bytes();
    vstd::bytes::lemma_auto_spec_u64_to_from_le_bytes();
    assert forall|v: i16| #[trigger] le_i16(v).len() == 2 && read_i16(le_i16(v)) == v by {
        assert(((v as u16) as i16) == v) by (bit_vector);
        assert(le_u16(v as u16).len() == 2);
    }
    assert forall|v: i32| #[trigger] le_i32(v).len() == 4 && read_i32(le_i32(v)) == v by {
        assert(((v as u32) as i32) == v) by (bit_vector);
        assert(le_u32(v as u32).len() == 4);
    }
    assert forall|v: i64| #[trigger] le_i64(v).len() == 8 && read_i64(le_i64(v)) == v by {
        assert(((v as u64) as i64) == v) by (bit_vector);
        assert(le_u64(v as u64).len() == 8);
    }
}

/// Copies `src` into `data` at `index`.
pub fn write_slice(data: &mut Vec<u8>, index: usize, src: &[u8])
    requires
        index + src@.len() <= old(data)@.len(),
    ensures
        final(data)@ == splice(old(data)@, index as int, src@),
{
    let n = src.len();
    let total = data.len();
    let mut i: usize = 0;
    while i < n
        invariant
            n == src@.len(),
            i <= n,
            index + n <= data@.len(),
            data@.len() == total,
            data@.len() == old(data)@.len(),
            data@ == splice(old(data)@, index as int, src@.subrange(0, i as int)),
        decreases n - i,
    {
        data.set(index + i, src[i]);
        i = i + 1;
        assert(data@ =~= splice(old(data)@, index as int, src@.subrange(0, i as int)));
    }
    assert(src@.subrange(0, n as int) =~= src@);
}

pub fn write_u8(data: &mut Vec<u8>, index: usize, value: u8)
    requires
        index + 1 <= old(data)@.len(),
    ensures
        final(data)@ == splice(old(data)@, index as int, seq![value]),
{
    data.set(index, value);
    assert(data@ =~= splice(old(data)@, index as int, seq![value]));
}

pub fn write_u16(data: &mut Vec<u8>, index: usize, value: u16)
    requires
        index + 2 <= old(data)@.len(),
    ensures
        final(data)@ == splice(old(data)@, index as int, le_u16(value)),
{
    proof { lemma_le_round_trip(); }
    let b = vstd::bytes::u16_to_le_bytes(value);
    write_slice(data, index, b.as_slice());
}

pub fn write_u32(data: &mut Vec<u8>, index: usize, value: u32)
    requires
        index + 4 <= old(data)@.len(),
    ensures
        final(data)@ == splice(old(data)@, index as int, le_u32(value)),
{
    proof { lemma_le_round_trip(); }
    let b = vstd::bytes::u32_to_le_bytes(value);
    write_slice(data, index, b.as_slice());
}

pub fn write_u64(data: &mut Vec<u8>, index: usize, value: u64)
    requires
        index + 8 <= old(data)@.len(),
    ensures
        final(data)@ == splice(old(data)@, index as int, le_u64(value)),
{
    proof { lemma_le_round_trip(); }
    let b = vstd::bytes::u64_to_le_bytes(value);
    write_slice(data, index, b.as_slice());
}

pub fn write_i16(data: &mut Vec<u8>, index: usize, value: i16)
    requires
        index + 2 <= old(data)@.len(),
    ensures
        final(data)@ == splice(old(data)@, index as int, le_i16(value)),
{
    write_u16(data, index, #[verifier::truncate] (value as u16));
}

pub fn write_i32(data: &mut Vec<u8>, index: usize, value: i32)
    requires
        index + 4 <= old(data)@.len(),
    ensures
        final(data)@ == splice(old(data)@, index as int, le_i32(value)),
{
    write_u32(data, index, #[verifier::truncate] (value as u32));
}

pub fn write_i64(data: &mut Vec<u8>, index: usize, value: i64)
    requires
        index + 8 <= old(data)@.len(),
    ensures
        final(data)@ == splice(old(data)@, index as int, le_i64(value)),
{
    write_u64(data, index, #[verifier::truncate] (value as u64));
}

pub fn read_u16_at(data: &[u8], index: usize) -> (r: u16)
    requires
        index + 2 <= data@.len(),
    ensures
        r == read_u16(window(data@, index as int, 2)),
{
    assert(data@.len() == data.len());
    vstd::bytes::u16_from_le_bytes(&data[index..index + 2])
}

pub fn read_u32_at(data: &[u8], index: usize) -> (r: u32)
    requires
        index + 4 <= data@.len(),
    ensures
        r == read_u32(window(data@, index as int, 4)),
{
    assert(data@.len() == data.len());
    vstd::bytes::u32_from_le_bytes(&data[index..index + 4])
}

pub fn read_u64_at(data: &[u8], index: usize) -> (r: u64)
    requires
        index + 8 <= data@.len(),
    ensures
        r == read_u64(window(data@, index as int, 8)),
{
    assert(data@.len() == data.len());
    vstd::bytes::u64_from_le_bytes(&data[index..index + 8])
}

pub fn read_i16_at(data: &[u8], index: usize) -> (r: i16)
    requires
        index + 2 <= data@.len(),
    ensures
        r == read_i16(window(data@, index as int, 2)),
{
    #[verifier::truncate] (read_u16_at(data, index) as i16)
}

pub fn read_i32_at(data: &[u8], index: usize) -> (r: i32)
    requires
        index + 4 <= data@.len(),
    ensures
        r == read_i32(window(data@, index as int, 4)),
{
    #[verifier::truncate] (read_u32_at(data, index) as i32)
}

pub fn read_i64_at(data: &[u8], index: usize) -> (r: i64)
    requires
        index + 8 <= data@.len(),
    ensures
        r == read_i64(window(data@, index as int, 8)),
{
    #[verifier::truncate] (read_u64_at(data, index) as i64)
}

} // verus!
