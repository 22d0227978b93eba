//! A byte buffer that owns its storage and grows on demand.

use crate::bytes::{
    window,
    lemma_le_round_trip,
    le_i32, le_i64, le_u16, read_i32, read_i64, read_u16, splice, write_i32, write_i64,
    write_slice, write_u16, write_u8,
};
use vstd::prelude::*;

verus! {

/// Largest capacity the buffer may grow to.
pub const MAX_ARRAY_LENGTH: usize = 2147483639;

/// Capacity of a buffer made by `new`, and the floor from which growth starts.
pub const INITIAL_CAPACITY: usize = 128;

/// One growth step: half as much again, capped at `MAX_ARRAY_LENGTH`.
pub open spec fn grow_step(value: int) -> int {
    let next = value + value / 2;
    if next > MAX_ARRAY_LENGTH as int {
        MAX_ARRAY_LENGTH as int
    } else {
        next
    }
}

/// Repeats `grow_step` from `value` until it reaches `required`.
pub open spec fn grow_until(value: int, required: int) -> int
    decreases MAX_ARRAY_LENGTH as int - value,
{
    if value >= required || value < INITIAL_CAPACITY as int || required > MAX_ARRAY_LENGTH as int {
        value
    } else {
        grow_until(grow_step(value), required)
    }
}

/// The capacity a buffer of `current` bytes grows to so that `required` bytes fit.
pub open spec fn expansion(current: int, required: int) -> int {
    grow_until(
        if current > INITIAL_CAPACITY as int {
            current
        } else {
            INITIAL_CAPACITY as int
        },
        required,
    )
}

/// The contents after making room for `length` bytes at `index`: unchanged when
/// they fit, else grown to `expansion` with the new tail zeroed.
pub open spec fn ensured(s: Seq<u8>, index: int, length: int) -> Seq<u8> {
    if index + length > s.len() {
        s + Seq::new((expansion(s.len() as int, index + length) - s.len()) as nat, |i: int| 0u8)
    } else {
        s
    }
}

/// `grow_until` lands at or beyond `required`, within the cap, never below its start.
pub proof fn lemma_grow_until_bounds(value: int, required: int)
    requires
        INITIAL_CAPACITY as int <= value <= MAX_ARRAY_LENGTH as int,
        required <= MAX_ARRAY_LENGTH as int,
    ensures
        grow_until(value, required) >= required,
        grow_until(value, required) >= value,
        grow_until(value, required) <= MAX_ARRAY_LENGTH as int,
    decreases MAX_ARRAY_LENGTH as int - value,
{
    if value < required {
        lemma_grow_until_bounds(grow_step(value), required);
    }
}

/// Making room keeps every byte that was there and reaches the requested end.
pub proof fn lemma_ensured_keeps_contents(s: Seq<u8>, index: int, length: int)
    requires
        0 <= index,
        0 <= length,
        index + length <= MAX_ARRAY_LENGTH as int,
        s.len() <= MAX_ARRAY_LENGTH as int,
    ensures
        ensured(s, index, length).subrange(0, s.len() as int) == s,
        ensured(s, index, length).len() >= index + length,
        ensured(s, index, length).len() >= s.len(),
        ensured(s, index, length).len() <= MAX_ARRAY_LENGTH as int,
        index + length > s.len() ==> ensured(s, index, length).len() == expansion(
            s.len() as int,
            index + length,
        ),
{
    if index + length > s.len() {
        let start = if s.len() > INITIAL_CAPACITY as int {
            s.len() as int
        } else {
            INITIAL_CAPACITY as int
        };
        lemma_grow_until_bounds(start, index + length);
        assert(ensured(s, index, length).subrange(0, s.len() as int) =~= s);
    }
}

/// The contents after writing `src` at `index`, growing first if needed.
pub open spec fn put_result(s: Seq<u8>, index: int, src: Seq<u8>) -> Seq<u8> {
    splice(ensured(s, index, src.len() as int), index, src)
}

/// The contents after each write of `puts` in turn, each an offset and its bytes.
pub open spec fn apply_puts(s: Seq<u8>, puts: Seq<(int, Seq<u8>)>) -> Seq<u8>
    decreases puts.len(),
{
    if puts.len() == 0 {
        s
    } else {
        put_result(apply_puts(s, puts.drop_last()), puts.last().0, puts.last().1)
    }
}

/// The capacity after writes that end at each of `ends` in turn, from `capacity`.
pub open spec fn capacity_after(capacity: int, ends: Seq<int>) -> int
    decreases ends.len(),
{
    if ends.len() == 0 {
        capacity
    } else {
        let before = capacity_after(capacity, ends.drop_last());
        if ends.last() > before {
            expansion(before, ends.last())
        } else {
            before
        }
    }
}

/// Where each write ends.
pub open spec fn put_ends(puts: Seq<(int, Seq<u8>)>) -> Seq<int> {
    puts.map_values(|p: (int, Seq<u8>)| p.0 + p.1.len())
}

/// Writes at increasing offsets, none overlapping the one before, into a buffer
/// of capacity `s.len()`: the final capacity follows the growth formula write by
/// write, and every write's bytes are still in place at the end.
pub proof fn lemma_growth_is_deterministic(s: Seq<u8>, puts: Seq<(int, Seq<u8>)>)
    requires
        s.len() <= MAX_ARRAY_LENGTH as int,
        forall|k: int| 0 <= k < puts.len() ==> 0 <= (#[trigger] puts[k]).0 && puts[k].0 + puts[k].1.len() <= MAX_ARRAY_LENGTH as int,
        forall|k: int| 0 < k < puts.len() ==> (#[trigger] puts[k]).0 >= puts[k - 1].0 + puts[k - 1].1.len(),
    ensures
        apply_puts(s, puts).len() == capacity_after(s.len() as int, put_ends(puts)),
        apply_puts(s, puts).len() <= MAX_ARRAY_LENGTH as int,
        forall|k: int| 0 <= k < puts.len() ==> puts[k].0 + puts[k].1.len() <= apply_puts(s, puts).len()
            && window(apply_puts(s, puts), puts[k].0, puts[k].1.len() as int) == (#[trigger] puts[k]).1,
    decreases puts.len(),
{
    if puts.len() > 0 {
        let prev = puts.drop_last();
        lemma_growth_is_deterministic(s, prev);
        let t = apply_puts(s, prev);
        let (index, src) = puts.last();
        let n = puts.len() - 1;
        assert(puts[n] == puts.last());
        lemma_ensured_keeps_contents(t, index, src.len() as int);
        let g = ensured(t, index, src.len() as int);
        let u = put_result(t, index, src);
        assert(put_ends(puts).drop_last() =~= put_ends(prev));
        assert(put_ends(puts).last() == index + src.len());
        assert(window(u, index, src.len() as int) =~= src);
        assert forall|k: int| 0 <= k < puts.len() implies puts[k].0 + puts[k].1.len() <= u.len()
            && window(u, puts[k].0, puts[k].1.len() as int) == (#[trigger] puts[k]).1 by {
            if k < n {
                assert(prev[k] == puts[k]);
                if k < n - 1 {
                    assert(puts[k + 1].0 >= puts[k].0 + puts[k].1.len());
                }
                assert(puts[k].0 + puts[k].1.len() <= index) by {
                    lemma_ordered_puts(puts, k, n);
                }
                assert(window(u, puts[k].0, puts[k].1.len() as int) =~= window(t, puts[k].0, puts[k].1.len() as int));
            }
        }
    }
}

proof fn lemma_ordered_puts(puts: Seq<(int, Seq<u8>)>, k: int, n: int)
    requires
        0 <= k < n < puts.len(),
        forall|j: int| 0 <= j < puts.len() ==> 0 <= (#[trigger] puts[j]).0 && puts[j].0 + puts[j].1.len() <= MAX_ARRAY_LENGTH as int,
        forall|j: int| 0 < j < puts.len() ==> (#[trigger] puts[j]).0 >= puts[j - 1].0 + puts[j - 1].1.len(),
    ensures
        puts[k].0 + puts[k].1.len() <= puts[n].0,
    decreases n - k,
{
    assert(puts[n].0 >= puts[n - 1].0 + puts[n - 1].1.len());
    if k < n - 1 {
        lemma_ordered_puts(puts, k, n - 1);
    }
}

pub struct ExpandableArrayBuffer {
    byte_array: Vec<u8>,
}

impl View for ExpandableArrayBuffer {
    type V = Seq<u8>;

    closed spec fn view(&self) -> Seq<u8> {
        self.byte_array@
    }
}

impl ExpandableArrayBuffer {
    /// Whether the buffer is within the capacity cap.
    pub open spec fn wf(&self) -> bool {
        self@.len() <= MAX_ARRAY_LENGTH as int
    }

    pub fn new() -> (r: Self)
        ensures
            r.wf(),
            r@ == Seq::new(INITIAL_CAPACITY as nat, |i: int| 0u8),
    {
        Self::with_capacity(INITIAL_CAPACITY)
    }

    pub fn with_capacity(initial_capacity: usize) -> (r: Self)
        requires
            initial_capacity <= MAX_ARRAY_LENGTH,
        ensures
            r.wf(),
            r@ == Seq::new(initial_capacity as nat, |i: int| 0u8),
    {
        let byte_array = vec![0u8; initial_capacity];
        assert(byte_array@ =~= Seq::new(initial_capacity as nat, |i: int| 0u8));
        Self { byte_array }
    }

    pub fn capacity(&self) -> (r: usize)
        ensures
            r == self@.len(),
    {
        self.byte_array.len()
    }

    pub fn is_expandable(&self) -> (r: bool)
        ensures
            r,
    {
        true
    }

    /// The bytes held, the whole capacity.
    pub fn as_slice(&self) -> (r: &[u8])
        ensures
            r@ == self@,
    {
        self.byte_array.as_slice()
    }

    /// The capacity that growing from `current_length` to hold `required_length` reaches.
    pub fn calculate_expansion(current_length: usize, required_length: usize) -> (r: usize)
        requires
            required_length <= MAX_ARRAY_LENGTH,
        ensures
            r == expansion(current_length as int, required_length as int),
    {
        let mut value: usize = if current_length > INITIAL_CAPACITY {
            current_length
        } else {
            INITIAL_CAPACITY
        };
        if value > MAX_ARRAY_LENGTH {
            return value;
        }
        while value < required_length
            invariant
                INITIAL_CAPACITY <= value <= MAX_ARRAY_LENGTH,
                required_length <= MAX_ARRAY_LENGTH,
                grow_until(value as int, required_length as int) == expansion(
                    current_length as int,
                    required_length as int,
                ),
            decreases MAX_ARRAY_LENGTH - value,
        {
            let half = value / 2;
            if value > MAX_ARRAY_LENGTH - half {
                value = MAX_ARRAY_LENGTH;
            } else {
                value = value + half;
            }
        }
        value
    }

    /// Grows the buffer, if needed, so that `length` bytes fit at `index`.
    pub fn ensure_capacity(&mut self, index: usize, length: usize)
        requires
            old(self).wf(),
            index + length <= MAX_ARRAY_LENGTH,
        ensures
            final(self).wf(),
            final(self)@ == ensured(old(self)@, index as int, length as int),
    {
        let resulting_position = index + length;
        let current_array_length = self.byte_array.len();
        if resulting_position > current_array_length {
            let new_capacity = Self::calculate_expansion(current_array_length, resulting_position);
            proof {
                lemma_ensured_keeps_contents(old(self)@, index as int, length as int);
            }
            assert(new_capacity as int == ensured(old(self)@, index as int, length as int).len());
            assert(new_capacity > current_array_length);
            self.byte_array.resize(new_capacity, 0u8);
            assert forall|i: int| current_array_length <= i < new_capacity implies self.byte_array@[i]
                == 0u8 by {
                assert(cloned(0u8, self.byte_array@[i]));
            }
            assert(self.byte_array@.subrange(0, current_array_length as int) == old(self)@);
            assert(self.byte_array@ =~= ensured(old(self)@, index as int, length as int));
        }
    }

    /// Fills `length` bytes at `index` with `value`, growing the buffer first if needed.
    pub fn set_memory(&mut self, index: usize, length: usize, value: u8)
        requires
            old(self).wf(),
            index + length <= MAX_ARRAY_LENGTH,
        ensures
            final(self).wf(),
            final(self)@ == splice(
                ensured(old(self)@, index as int, length as int),
                index as int,
                Seq::new(length as nat, |i: int| value),
            ),
    {
        self.ensure_capacity(index, length);
        proof {
            lemma_ensured_keeps_contents(old(self)@, index as int, length as int);
        }
        let ghost grown = self@;
        let mut i: usize = 0;
        while i < length
            invariant
                i <= length,
                index + length <= self.byte_array@.len(),
                self.byte_array@.len() == grown.len(),
                self.wf(),
                self@ == splice(grown, index as int, Seq::new(i as nat, |k: int| value)),
            decreases length - i,
        {
            self.byte_array.set(index + i, value);
            i = i + 1;
            assert(self@ =~= splice(grown, index as int, Seq::new(i as nat, |k: int| value)));
        }
    }

    /// Writes `src` at `index`, growing the buffer first if needed.
    pub fn put_bytes(&mut self, index: usize, src: &[u8])
        requires
            old(self).wf(),
            index + src@.len() <= MAX_ARRAY_LENGTH,
        ensures
            final(self).wf(),
            final(self)@ == put_result(old(self)@, index as int, src@),
    {
        self.ensure_capacity(index, src.len());
        proof {
            lemma_ensured_keeps_contents(old(self)@, index as int, src@.len() as int);
        }
        write_slice(&mut self.byte_array, index, src);
    }

    pub fn put_u8(&mut self, index: usize, value: u8)
        requires
            old(self).wf(),
            index + 1 <= MAX_ARRAY_LENGTH,
        ensures
            final(self).wf(),
            final(self)@ == splice(ensured(old(self)@, index as int, 1), index as int, seq![value]),
    {
        self.ensure_capacity(index, 1);
        proof {
            lemma_ensured_keeps_contents(old(self)@, index as int, 1);
        }
        write_u8(&mut self.byte_array, index, value);
    }

    pub fn put_u16(&mut self, index: usize, value: u16)
        requires
            old(self).wf(),
            index + 2 <= MAX_ARRAY_LENGTH,
        ensures
            final(self).wf(),
            final(self)@ == splice(ensured(old(self)@, index as int, 2), index as int, le_u16(value)),
    {
        self.ensure_capacity(index, 2);
        proof {
            lemma_ensured_keeps_contents(old(self)@, index as int, 2);
            lemma_le_round_trip();
        }
        write_u16(&mut self.byte_array, index, value);
    }

    pub fn put_i32(&mut self, index: usize, value: i32)
        requires
            old(self).wf(),
            index + 4 <= MAX_ARRAY_LENGTH,
        ensures
            final(self).wf(),
            final(self)@ == splice(ensured(old(self)@, index as int, 4), index as int, le_i32(value)),
    {
        self.ensure_capacity(index, 4);
        proof {
            lemma_ensured_keeps_contents(old(self)@, index as int, 4);
            lemma_le_round_trip();
        }
        write_i32(&mut self.byte_array, index, value);
    }

    pub fn put_i64(&mut self, index: usize, value: i64)
        requires
            old(self).wf(),
            index + 8 <= MAX_ARRAY_LENGTH,
        ensures
            final(self).wf(),
            final(self)@ == splice(ensured(old(self)@, index as int, 8), index as int, le_i64(value)),
    {
        self.ensure_capacity(index, 8);
        proof {
            lemma_ensured_keeps_contents(old(self)@, index as int, 8);
            lemma_le_round_trip();
        }
        write_i64(&mut self.byte_array, index, value);
    }

    pub fn get_u8(&self, index: usize) -> (r: u8)
        requires
            index < self@.len(),
        ensures
            r == self@[index as int],
    {
        self.byte_array[index]
    }

    pub fn get_u16(&self, index: usize) -> (r: u16)
        requires
            index + 2 <= self@.len(),
        ensures
            r == read_u16(window(self@, index as int, 2)),
    {
        crate::bytes::read_u16_at(self.byte_array.as_slice(), index)
    }

    pub fn get_i32(&self, index: usize) -> (r: i32)
        requires
            index + 4 <= self@.len(),
        ensures
            r == read_i32(window(self@, index as int, 4)),
    {
        crate::bytes::read_i32_at(self.byte_array.as_slice(), index)
    }

    pub fn get_i64(&self, index: usize) -> (r: i64)
        requires
            index + 8 <= self@.len(),
        ensures
            r == read_i64(window(self@, index as int, 8)),
    {
        crate::bytes::read_i64_at(self.byte_array.as_slice(), index)
    }
}

} // verus!
