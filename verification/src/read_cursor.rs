//! A forward-only, bounded reader of little-endian values over a byte slice.

use crate::event::Event;
use vstd::prelude::*;
use vstd::slice::slice_subrange;

verus! {

/// A view over the bytes that are still to be read.
pub struct ReadCursor<'a>(pub &'a [u8]);

impl<'a> View for ReadCursor<'a> {
    type V = Seq<u8>;

    /// The bytes that are still to be read, in order.
    open spec fn view(&self) -> Seq<u8> {
        self.0@
    }
}

/// The number that the first four bytes of `bytes` spell, lowest byte first.
pub open spec fn le_u32(bytes: Seq<u8>) -> int
    recommends
        bytes.len() >= 4,
{
    bytes[0] as int + 0x100 * (bytes[1] as int) + 0x1_0000 * (bytes[2] as int) + 0x100_0000 * (
    bytes[3] as int)
}

/// Word `index` of `bytes` read as consecutive little-endian 32-bit words.
pub open spec fn le_word_at(bytes: Seq<u8>, index: int) -> int
    recommends
        0 <= index,
        4 * index + 4 <= bytes.len(),
{
    le_u32(bytes.skip(4 * index))
}

impl<'a> ReadCursor<'a> {
    /// How many bytes are still to be read.
    pub fn remaining(&self) -> (len: usize)
        ensures
            len == self@.len(),
    {
        self.0.len()
    }

    /// Reads the next `N` bytes. When fewer are left, reads nothing.
    pub fn next_bytes<const N: usize>(&mut self) -> (bytes: Option<[u8; N]>)
        ensures
            bytes.is_some() <==> N <= old(self)@.len(),
            bytes matches Some(b) ==> b@ == old(self)@.take(N as int) && final(self)@ == old(
                self,
            )@.skip(N as int),
            bytes.is_none() ==> final(self)@ == old(self)@,
    {
        let data: &'a [u8] = self.0;
        if data.len() < N {
            return None;
        }
        let mut out: [u8; N] = [0u8; N];
        let mut i: usize = 0;
        while i < N
            invariant
                i <= N,
                N <= data@.len(),
                forall|j: int| 0 <= j < i ==> out@[j] == data@[j],
            decreases N - i,
        {
            out[i] = data[i];
            i = i + 1;
        }
        self.0 = slice_subrange(data, N, data.len());
        assert(out@ =~= data@.take(N as int));
        Some(out)
    }

    /// Reads the next byte. When none is left, reads nothing.
    pub fn next_u8(&mut self) -> (byte: Option<u8>)
        ensures
            byte.is_some() <==> old(self)@.len() >= 1,
            byte matches Some(b) ==> b == old(self)@[0] && final(self)@ == old(self)@.skip(1),
            byte.is_none() ==> final(self)@ == old(self)@,
    {
        let data: &'a [u8] = self.0;
        if data.len() < 1 {
            return None;
        }
        let byte: u8 = data[0];
        self.0 = slice_subrange(data, 1, data.len());
        Some(byte)
    }

    /// Reads the next four bytes as a little-endian number. When fewer are
    /// left, reads nothing.
    pub fn next_u32_le(&mut self) -> (word: Option<u32>)
        ensures
            word.is_some() <==> old(self)@.len() >= 4,
            word matches Some(w) ==> w == le_u32(old(self)@) && final(self)@ == old(self)@.skip(4),
            word.is_none() ==> final(self)@ == old(self)@,
    {
        let data: &'a [u8] = self.0;
        if data.len() < 4 {
            return None;
        }
        let word: u32 = word_at(data, 0);
        self.0 = slice_subrange(data, 4, data.len());
        Some(word)
    }

    /// Passes over the next `amount` bytes.
    pub fn skip(&mut self, amount: usize)
        requires
            amount <= old(self)@.len(),
        ensures
            final(self)@ == old(self)@.skip(amount as int),
    {
        let data: &'a [u8] = self.0;
        self.0 = slice_subrange(data, amount, data.len());
    }

    /// Reads the next `n` little-endian 32-bit words as events. When fewer
    /// than `4 * n` bytes are left, reads nothing.
    pub fn next_n(&mut self, n: usize) -> (events: Option<Vec<Event>>)
        ensures
            events.is_some() <==> 4 * n <= old(self)@.len(),
            events matches Some(v) ==> {
                &&& v@.len() == n
                &&& forall|i: int| 0 <= i < n ==> (#[trigger] v@[i]).0 == le_word_at(old(self)@, i)
                &&& final(self)@ == old(self)@.skip(4 * n)
            },
            events.is_none() ==> final(self)@ == old(self)@,
    {
        let data: &'a [u8] = self.0;
        if data.len() / 4 < n {
            return None;
        }
        let mut out: Vec<Event> = Vec::with_capacity(n);
        let mut i: usize = 0;
        while i < n
            invariant
                i <= n,
                4 * n <= data@.len() <= usize::MAX,
                out@.len() == i,
                forall|j: int| 0 <= j < i ==> (#[trigger] out@[j]).0 == le_word_at(data@, j),
            decreases n - i,
        {
            let word: u32 = word_at(data, 4 * i);
            out.push(Event(word));
            i = i + 1;
        }
        self.0 = slice_subrange(data, 4 * n, data.len());
        Some(out)
    }
}

/// The little-endian 32-bit word that starts at byte `at` of `data`.
fn word_at(data: &[u8], at: usize) -> (word: u32)
    requires
        at + 4 <= data@.len(),
    ensures
        word == le_u32(data@.skip(at as int)),
{
    let b0: u32 = data[at] as u32;
    let b1: u32 = data[at + 1] as u32;
    let b2: u32 = data[at + 2] as u32;
    let b3: u32 = data[at + 3] as u32;
    b0 + 0x100 * b1 + 0x1_0000 * b2 + 0x100_0000 * b3
}

} // verus!
