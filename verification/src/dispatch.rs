//! The receive and transmit frame dispatchers: two state machines that walk
//! the channel slots of the duplex stream, one word per ready pulse. The
//! receiver files left-channel words into the delay buffer and drops the
//! right channel; the transmitter plays left-channel words back out of the
//! buffer and sends silence on the right.

use vstd::prelude::*;
use crate::buffer::BufferModel;
use crate::buffer::DelayBuffer;
use crate::buffer::lemma_operations_keep_shape;
use crate::cursor::cursor_after;
use crate::cursor::lemma_cursor_wraps;
use crate::cursor::next_cursor;
use crate::phase::ChannelPhase;
use crate::phase::lemma_phase_period;
use crate::phase::lemma_samples_closed_step;

verus! {

/// The word sent in every right-channel slot.
pub const SILENCE: u16 = 0;

/// The buffer after the receiver, standing at `phase`, has taken `word`.
pub open spec fn rx_receive(phase: ChannelPhase, buffer: BufferModel, word: u16) -> BufferModel {
    match phase {
        ChannelPhase::LeftTop => buffer.store_top(word),
        ChannelPhase::LeftBot => buffer.store_bot(word).advance_write(),
        ChannelPhase::RightTop => buffer,
        ChannelPhase::RightBot => buffer,
    }
}

/// The word the transmitter, standing at `phase`, sends next.
pub open spec fn tx_word(phase: ChannelPhase, buffer: BufferModel) -> u16 {
    match phase {
        ChannelPhase::LeftTop => buffer.load_top(),
        ChannelPhase::LeftBot => buffer.load_bot(),
        ChannelPhase::RightTop => SILENCE,
        ChannelPhase::RightBot => SILENCE,
    }
}

/// The buffer after the transmitter, standing at `phase`, has sent a word.
pub open spec fn tx_transmit(phase: ChannelPhase, buffer: BufferModel) -> BufferModel {
    match phase {
        ChannelPhase::LeftTop => buffer,
        ChannelPhase::LeftBot => buffer.advance_read(),
        ChannelPhase::RightTop => buffer,
        ChannelPhase::RightBot => buffer,
    }
}

/// Phase and buffer after the receiver has taken `words` one after another.
pub open spec fn rx_run(phase: ChannelPhase, buffer: BufferModel, words: Seq<u16>) -> (
    ChannelPhase,
    BufferModel,
)
    decreases words.len(),
{
    if words.len() == 0 {
        (phase, buffer)
    } else {
        let before = rx_run(phase, buffer, words.drop_last());
        (before.0.spec_next(), rx_receive(before.0, before.1, words.last()))
    }
}

/// Phase and buffer after the transmitter has answered `pulses` ready
/// pulses, and the words it sent, in order.
pub open spec fn tx_run(phase: ChannelPhase, buffer: BufferModel, pulses: nat) -> (
    ChannelPhase,
    BufferModel,
    Seq<u16>,
)
    decreases pulses,
{
    if pulses == 0 {
        (phase, buffer, Seq::<u16>::empty())
    } else {
        let before = tx_run(phase, buffer, (pulses - 1) as nat);
        (
            before.0.spec_next(),
            tx_transmit(before.0, before.1),
            before.2.push(tx_word(before.0, before.1)),
        )
    }
}

/// Consumes the incoming words of the duplex stream.
pub struct RxDispatcher {
    phase: ChannelPhase,
}

/// Produces the outgoing words of the duplex stream.
pub struct TxDispatcher {
    phase: ChannelPhase,
}

impl View for RxDispatcher {
    type V = ChannelPhase;

    closed spec fn view(&self) -> ChannelPhase {
        self.phase
    }
}

impl View for TxDispatcher {
    type V = ChannelPhase;

    closed spec fn view(&self) -> ChannelPhase {
        self.phase
    }
}

impl RxDispatcher {
    /// A receiver that expects the top word of a left sample.
    pub fn new() -> (rx: Self)
        ensures
            rx@ == ChannelPhase::LeftTop,
    {
        RxDispatcher { phase: ChannelPhase::first() }
    }

    /// The slot the next incoming word belongs to.
    pub fn phase(&self) -> (phase: ChannelPhase)
        ensures
            phase == self@,
    {
        self.phase
    }

    /// Takes the one word that a receive-ready pulse announces. A left top
    /// word goes into the top array at the write cursor; a left bottom word
    /// goes into the bottom array and moves the write cursor on; right
    /// channel words are dropped. Then the phase moves to the next slot.
    pub fn receive<const N: usize>(&mut self, buffer: &mut DelayBuffer<N>, word: u16)
        requires
            old(buffer).wf(),
        ensures
            final(buffer).wf(),
            final(buffer)@ == rx_receive(old(self)@, old(buffer)@, word),
            final(self)@ == old(self)@.spec_next(),
    {
        match self.phase {
            ChannelPhase::LeftTop => {
                buffer.store_top(word);
            },
            ChannelPhase::LeftBot => {
                buffer.store_bot(word);
                buffer.advance_write();
            },
            ChannelPhase::RightTop => {},
            ChannelPhase::RightBot => {},
        }
        self.phase = self.phase.next();
    }
}

impl TxDispatcher {
    /// A transmitter that sends the top word of a left sample next.
    pub fn new() -> (tx: Self)
        ensures
            tx@ == ChannelPhase::LeftTop,
    {
        TxDispatcher { phase: ChannelPhase::first() }
    }

    /// The slot the next outgoing word belongs to.
    pub fn phase(&self) -> (phase: ChannelPhase)
        ensures
            phase == self@,
    {
        self.phase
    }

    /// Gives the one word that a transmit-ready pulse asks for. The left top
    /// slot sends the top word at the read cursor; the left bottom slot
    /// sends the bottom word and moves the read cursor on; the right channel
    /// sends silence whatever the buffer holds. Then the phase moves to the
    /// next slot.
    pub fn transmit<const N: usize>(&mut self, buffer: &mut DelayBuffer<N>) -> (word: u16)
        requires
            old(buffer).wf(),
        ensures
            final(buffer).wf(),
            word == tx_word(old(self)@, old(buffer)@),
            !old(self)@.spec_is_left() ==> word == SILENCE,
            final(buffer)@ == tx_transmit(old(self)@, old(buffer)@),
            final(self)@ == old(self)@.spec_next(),
    {
        let word: u16 = match self.phase {
            ChannelPhase::LeftTop => buffer.load_top(),
            ChannelPhase::LeftBot => {
                let bottom: u16 = buffer.load_bot();
                buffer.advance_read();
                bottom
            },
            ChannelPhase::RightTop => SILENCE,
            ChannelPhase::RightBot => SILENCE,
        };
        self.phase = self.phase.next();
        word
    }
}

/// For any sequence of received words the receiver's phase cycles through
/// the four slots in order, and the write cursor has moved on by one cell for
/// every left sample closed on the way: once per four words. The read cursor
/// and the length of the buffer are left alone.
pub proof fn lemma_rx_run(phase: ChannelPhase, buffer: BufferModel, words: Seq<u16>)
    requires
        buffer.wf(),
    ensures
        rx_run(phase, buffer, words).0 == phase.after(words.len()),
        rx_run(phase, buffer, words).1.wf(),
        rx_run(phase, buffer, words).1.len() == buffer.len(),
        rx_run(phase, buffer, words).1.read_cursor == buffer.read_cursor,
        rx_run(phase, buffer, words).1.write_cursor == cursor_after(
            buffer.write_cursor,
            phase.samples_closed(words.len()),
            buffer.len(),
        ),
        rx_run(phase, buffer, words).1.write_cursor == (buffer.write_cursor + phase.samples_closed(
            words.len(),
        )) % buffer.len(),
    decreases words.len(),
{
    let len: nat = buffer.len();
    if words.len() == 0 {
        lemma_cursor_wraps(buffer.write_cursor, 0, len);
    } else {
        let earlier: Seq<u16> = words.drop_last();
        let pulses: nat = earlier.len();
        let before = rx_run(phase, buffer, earlier);
        lemma_rx_run(phase, buffer, earlier);
        lemma_samples_closed_step(phase, pulses);
        lemma_operations_keep_shape(before.1, words.last());
        lemma_operations_keep_shape(before.1.store_bot(words.last()), words.last());
        lemma_cursor_wraps(buffer.write_cursor, phase.samples_closed(pulses), len);
        lemma_cursor_wraps(buffer.write_cursor, phase.samples_closed(pulses + 1), len);
    }
}

/// One frame of four received words, whatever they are and wherever in the
/// frame the receiver stands, brings the phase back to where it was and moves
/// the write cursor on by exactly one cell.
pub proof fn lemma_rx_frame(phase: ChannelPhase, buffer: BufferModel, words: Seq<u16>)
    requires
        buffer.wf(),
        words.len() == 4,
    ensures
        rx_run(phase, buffer, words).0 == phase,
        rx_run(phase, buffer, words).1.write_cursor == next_cursor(
            buffer.write_cursor,
            buffer.len(),
        ),
{
    lemma_rx_run(phase, buffer, words);
    lemma_phase_period(phase, 0);
    assert(cursor_after(buffer.write_cursor, 1, buffer.len()) == next_cursor(
        cursor_after(buffer.write_cursor, 0, buffer.len()),
        buffer.len(),
    ));
}

/// For any number of transmit-ready pulses the transmitter's phase cycles
/// through the four slots in order, one word is sent per pulse, and the read
/// cursor has moved on by one cell for every left sample closed on the way:
/// once per four pulses. Nothing in the buffer but the read cursor changes.
pub proof fn lemma_tx_run(phase: ChannelPhase, buffer: BufferModel, pulses: nat)
    requires
        buffer.wf(),
    ensures
        tx_run(phase, buffer, pulses).0 == phase.after(pulses),
        tx_run(phase, buffer, pulses).1.wf(),
        tx_run(phase, buffer, pulses).1.top == buffer.top,
        tx_run(phase, buffer, pulses).1.bot == buffer.bot,
        tx_run(phase, buffer, pulses).1.write_cursor == buffer.write_cursor,
        tx_run(phase, buffer, pulses).1.read_cursor == cursor_after(
            buffer.read_cursor,
            phase.samples_closed(pulses),
            buffer.len(),
        ),
        tx_run(phase, buffer, pulses).1.read_cursor == (buffer.read_cursor + phase.samples_closed(
            pulses,
        )) % buffer.len(),
        tx_run(phase, buffer, pulses).2.len() == pulses,
    decreases pulses,
{
    let len: nat = buffer.len();
    if pulses == 0 {
        lemma_cursor_wraps(buffer.read_cursor, 0, len);
    } else {
        let earlier: nat = (pulses - 1) as nat;
        let before = tx_run(phase, buffer, earlier);
        lemma_tx_run(phase, buffer, earlier);
        lemma_samples_closed_step(phase, earlier);
        lemma_operations_keep_shape(before.1, 0);
        lemma_cursor_wraps(buffer.read_cursor, phase.samples_closed(earlier), len);
        lemma_cursor_wraps(buffer.read_cursor, phase.samples_closed(earlier + 1), len);
    }
}

/// One frame of four transmit pulses, wherever in the frame the transmitter
/// stands, brings the phase back to where it was and moves the read cursor on
/// by exactly one cell.
pub proof fn lemma_tx_frame(phase: ChannelPhase, buffer: BufferModel)
    requires
        buffer.wf(),
    ensures
        tx_run(phase, buffer, 4).0 == phase,
        tx_run(phase, buffer, 4).1.read_cursor == next_cursor(buffer.read_cursor, buffer.len()),
{
    lemma_tx_run(phase, buffer, 4);
    lemma_phase_period(phase, 0);
    assert(cursor_after(buffer.read_cursor, 1, buffer.len()) == next_cursor(
        cursor_after(buffer.read_cursor, 0, buffer.len()),
        buffer.len(),
    ));
}

/// Every word sent in a right-channel slot is silence, whatever the buffer
/// holds: in any run of pulses, the word sent at a pulse whose slot is
/// `RightTop` or `RightBot` is zero.
pub proof fn lemma_right_channel_is_silent(
    phase: ChannelPhase,
    buffer: BufferModel,
    pulses: nat,
    pulse: nat,
)
    requires
        buffer.wf(),
        pulse < pulses,
        !phase.after(pulse).spec_is_left(),
    ensures
        tx_run(phase, buffer, pulses).2[pulse as int] == SILENCE,
    decreases pulses,
{
    let earlier: nat = (pulses - 1) as nat;
    lemma_tx_run(phase, buffer, earlier);
    if pulse < earlier {
        lemma_right_channel_is_silent(phase, buffer, earlier, pulse);
    }
}

} // verus!
