//! The circular echo buffer: two parallel arrays that hold the two halves of
//! every sample, a write cursor for what comes in and a read cursor for what
//! goes out. The distance between the cursors is the echo delay.

use vstd::prelude::*;
use crate::cursor::advance;
use crate::cursor::cursor_after;
use crate::cursor::lemma_cursor_wraps;
use crate::cursor::lemma_no_index_repeated;
use crate::cursor::lemma_wrap_add;
use crate::cursor::lemma_wrap_in_range;
use crate::cursor::lemma_wrap_sub;
use crate::cursor::next_cursor;
use crate::cursor::wrap;

verus! {

/// What a delay buffer holds, as plain mathematics: the two arrays and the
/// two cursors.
pub struct BufferModel {
    pub top: Seq<u16>,
    pub bot: Seq<u16>,
    pub write_cursor: nat,
    pub read_cursor: nat,
}

impl BufferModel {
    /// Number of samples the buffer holds.
    pub open spec fn len(self) -> nat {
        self.top.len()
    }

    /// The arrays are equally long and not empty, and both cursors name a
    /// cell.
    pub open spec fn wf(self) -> bool {
        &&& self.top.len() > 0
        &&& self.bot.len() == self.top.len()
        &&& self.write_cursor < self.top.len()
        &&& self.read_cursor < self.top.len()
    }

    /// How many cells the read cursor trails the write cursor by, counted
    /// round the ring.
    pub open spec fn delay(self) -> nat {
        wrap(self.write_cursor - self.read_cursor, self.len())
    }

    /// A silent buffer of `length` samples whose write cursor starts
    /// `delay_offset` cells ahead of the read cursor.
    pub open spec fn fresh(length: nat, delay_offset: nat) -> BufferModel {
        BufferModel {
            top: Seq::new(length, |i: int| 0u16),
            bot: Seq::new(length, |i: int| 0u16),
            write_cursor: wrap(delay_offset as int, length),
            read_cursor: 0,
        }
    }

    /// The buffer with `word` in the top array at the write cursor.
    pub open spec fn store_top(self, word: u16) -> BufferModel {
        BufferModel { top: self.top.update(self.write_cursor as int, word), ..self }
    }

    /// The buffer with `word` in the bottom array at the write cursor.
    pub open spec fn store_bot(self, word: u16) -> BufferModel {
        BufferModel { bot: self.bot.update(self.write_cursor as int, word), ..self }
    }

    /// The buffer with its write cursor one cell on.
    pub open spec fn advance_write(self) -> BufferModel {
        BufferModel { write_cursor: next_cursor(self.write_cursor, self.len()), ..self }
    }

    /// The top word at the read cursor.
    pub open spec fn load_top(self) -> u16 {
        self.top[self.read_cursor as int]
    }

    /// The bottom word at the read cursor.
    pub open spec fn load_bot(self) -> u16 {
        self.bot[self.read_cursor as int]
    }

    /// The buffer with its read cursor one cell on.
    pub open spec fn advance_read(self) -> BufferModel {
        BufferModel { read_cursor: next_cursor(self.read_cursor, self.len()), ..self }
    }
}

/// Fixed-capacity sample store of `N` cells with independent write and read
/// cursors. It is created once and never resized.
pub struct DelayBuffer<const N: usize> {
    top: [u16; N],
    bot: [u16; N],
    write_cursor: usize,
    read_cursor: usize,
}

impl<const N: usize> View for DelayBuffer<N> {
    type V = BufferModel;

    closed spec fn view(&self) -> BufferModel {
        BufferModel {
            top: self.top@,
            bot: self.bot@,
            write_cursor: self.write_cursor as nat,
            read_cursor: self.read_cursor as nat,
        }
    }
}

impl<const N: usize> DelayBuffer<N> {
    /// The buffer holds `N` samples and both cursors name a cell.
    pub open spec fn wf(&self) -> bool {
        self@.wf() && self@.len() == N
    }

    /// A silent buffer. The write cursor starts at `delay_offset` counted
    /// round the ring, the read cursor at cell 0.
    pub fn new(delay_offset: usize) -> (buffer: Self)
        requires
            N > 0,
        ensures
            buffer.wf(),
            buffer@ == BufferModel::fresh(N as nat, delay_offset as nat),
            buffer@.delay() == delay_offset % N,
    {
        let buffer = DelayBuffer {
            top: [0u16; N],
            bot: [0u16; N],
            write_cursor: delay_offset % N,
            read_cursor: 0,
        };
        proof {
            assert(buffer.bot@ =~= Seq::new(N as nat, |i: int| 0u16));
            lemma_wrap_in_range((delay_offset % N) as int, N as nat);
        }
        buffer
    }

    /// Number of samples the buffer holds.
    pub fn len(&self) -> (n: usize)
        ensures
            n == N,
    {
        N
    }

    /// Cell the next incoming sample goes to.
    pub fn write_cursor(&self) -> (cell: usize)
        ensures
            cell == self@.write_cursor,
    {
        self.write_cursor
    }

    /// Cell the next outgoing sample comes from.
    pub fn read_cursor(&self) -> (cell: usize)
        ensures
            cell == self@.read_cursor,
    {
        self.read_cursor
    }

    /// How many cells the read cursor trails the write cursor by.
    pub fn delay(&self) -> (cells: usize)
        requires
            self.wf(),
        ensures
            cells == self@.delay(),
            cells < N,
    {
        proof {
            let gap: int = self.write_cursor - self.read_cursor;
            if gap >= 0 {
                lemma_wrap_in_range(gap, N as nat);
            } else {
                lemma_wrap_in_range(gap + N, N as nat);
                vstd::arithmetic::div_mod::lemma_mod_add_multiples_vanish(gap, N as int);
            }
        }
        if self.write_cursor >= self.read_cursor {
            self.write_cursor - self.read_cursor
        } else {
            N - self.read_cursor + self.write_cursor
        }
    }

    /// The two halves of the sample held in `cell`.
    pub fn sample_at(&self, cell: usize) -> (sample: (u16, u16))
        requires
            cell < N,
        ensures
            sample.0 == self@.top[cell as int],
            sample.1 == self@.bot[cell as int],
    {
        (self.top[cell], self.bot[cell])
    }

    /// Puts `word` into the top array at the write cursor.
    pub fn store_top(&mut self, word: u16)
        requires
            old(self).wf(),
        ensures
            final(self).wf(),
            final(self)@ == old(self)@.store_top(word),
    {
        self.top[self.write_cursor] = word;
    }

    /// Puts `word` into the bottom array at the write cursor.
    pub fn store_bot(&mut self, word: u16)
        requires
            old(self).wf(),
        ensures
            final(self).wf(),
            final(self)@ == old(self)@.store_bot(word),
    {
        self.bot[self.write_cursor] = word;
    }

    /// Moves the write cursor one cell on, wrapping after the last cell.
    pub fn advance_write(&mut self)
        requires
            old(self).wf(),
        ensures
            final(self).wf(),
            final(self)@ == old(self)@.advance_write(),
    {
        self.write_cursor = advance(self.write_cursor, N);
    }

    /// The top word at the read cursor.
    pub fn load_top(&self) -> (word: u16)
        requires
            self.wf(),
        ensures
            word == self@.load_top(),
    {
        self.top[self.read_cursor]
    }

    /// The bottom word at the read cursor.
    pub fn load_bot(&self) -> (word: u16)
        requires
            self.wf(),
        ensures
            word == self@.load_bot(),
    {
        self.bot[self.read_cursor]
    }

    /// Moves the read cursor one cell on, wrapping after the last cell.
    pub fn advance_read(&mut self)
        requires
            old(self).wf(),
        ensures
            final(self).wf(),
            final(self)@ == old(self)@.advance_read(),
    {
        self.read_cursor = advance(self.read_cursor, N);
    }
}

/// None of the buffer operations changes the length or breaks the buffer,
/// stores leave the cursors alone, and each advance moves only its own
/// cursor.
pub proof fn lemma_operations_keep_shape(buffer: BufferModel, word: u16)
    requires
        buffer.wf(),
    ensures
        buffer.store_top(word).wf(),
        buffer.store_bot(word).wf(),
        buffer.advance_write().wf(),
        buffer.advance_read().wf(),
        buffer.store_top(word).len() == buffer.len(),
        buffer.store_bot(word).len() == buffer.len(),
        buffer.store_top(word).delay() == buffer.delay(),
        buffer.store_bot(word).delay() == buffer.delay(),
        buffer.advance_write().read_cursor == buffer.read_cursor,
        buffer.advance_read().write_cursor == buffer.write_cursor,
{
    lemma_wrap_in_range(buffer.write_cursor as int + 1, buffer.len());
    lemma_wrap_in_range(buffer.read_cursor as int + 1, buffer.len());
}

/// The delay is what the cursors make it: an advance of the write cursor
/// lengthens it by one cell, an advance of the read cursor shortens it by
/// one, both counted round the ring. One advance of each, in either order,
/// leaves it as it was.
pub proof fn lemma_delay_follows_cursors(buffer: BufferModel)
    requires
        buffer.wf(),
    ensures
        buffer.delay() < buffer.len(),
        buffer.advance_write().delay() == wrap(buffer.delay() as int + 1, buffer.len()),
        buffer.advance_read().delay() == wrap(buffer.delay() - 1, buffer.len()),
        buffer.advance_write().advance_read().delay() == buffer.delay(),
        buffer.advance_read().advance_write().delay() == buffer.delay(),
{
    let len: nat = buffer.len();
    let gap: int = buffer.write_cursor - buffer.read_cursor;
    lemma_operations_keep_shape(buffer, 0);
    lemma_delay_after_advance(buffer);
    lemma_delay_after_advance(buffer.advance_write());
    lemma_delay_after_advance(buffer.advance_read());
    lemma_wrap_in_range(gap, len);
    lemma_wrap_in_range(buffer.delay() as int, len);
    // one step on and one step back cancel
    lemma_wrap_add(gap + 1, -1, len);
    lemma_wrap_add(gap - 1, 1, len);
    lemma_wrap_add(gap, 1, len);
    lemma_wrap_add(gap, -1, len);
}

/// What one advance of either cursor does to the delay.
proof fn lemma_delay_after_advance(buffer: BufferModel)
    requires
        buffer.wf(),
    ensures
        buffer.advance_write().delay() == wrap(buffer.delay() as int + 1, buffer.len()),
        buffer.advance_read().delay() == wrap(buffer.delay() - 1, buffer.len()),
{
    let len: nat = buffer.len();
    let w: int = buffer.write_cursor as int;
    let r: int = buffer.read_cursor as int;
    lemma_wrap_add(w + 1, -r, len);
    lemma_wrap_add(w - r, 1, len);
    lemma_wrap_sub(w, r + 1, len);
    lemma_wrap_add(w - r, -1, len);
}

/// A sample written at the write cursor is read from that same cell after
/// exactly `delay` advances of the read cursor, and not before.
pub proof fn lemma_read_reaches_write(buffer: BufferModel, advances: nat)
    requires
        buffer.wf(),
    ensures
        cursor_after(buffer.read_cursor, buffer.delay(), buffer.len()) == buffer.write_cursor,
        advances < buffer.delay() ==> cursor_after(buffer.read_cursor, advances, buffer.len())
            != buffer.write_cursor,
{
    let len: nat = buffer.len();
    let w: int = buffer.write_cursor as int;
    let r: int = buffer.read_cursor as int;
    lemma_cursor_wraps(buffer.read_cursor, buffer.delay(), len);
    lemma_cursor_wraps(buffer.read_cursor, advances, len);
    lemma_wrap_in_range(w - r, len);
    lemma_wrap_add(w - r, r, len);
    lemma_wrap_in_range(w, len);
    if advances < buffer.delay() {
        lemma_no_index_repeated(r + advances, r + buffer.delay(), len);
    }
}

} // verus!
