//! The delay law of the echo buffer: what goes in comes out again a fixed
//! number of samples later.
//!
//! Receiver and transmitter are clocked by the same sample clock, so in every
//! sample period one sample is stored and one is played. This module states
//! what such a lock-step exchange plays, frame by frame.

use vstd::prelude::*;
use crate::buffer::lemma_delay_follows_cursors;
use crate::buffer::lemma_operations_keep_shape;
use crate::buffer::BufferModel;
use crate::cursor::lemma_no_index_repeated;
use crate::cursor::lemma_wrap_add;
use crate::cursor::lemma_wrap_in_range;
use crate::cursor::lemma_wrap_sub;
use crate::cursor::wrap;
use crate::dispatch::SILENCE;
use crate::phase::ChannelPhase;
use crate::scheduler::lemma_run_answers_every_tick;
use crate::scheduler::lemma_run_splits;
use crate::scheduler::lock_step;
use crate::scheduler::run;
use crate::scheduler::Fault;
use crate::scheduler::SchedulerModel;

verus! {

/// The buffer after one sample period: the incoming sample is stored at the
/// write cursor and both cursors move on.
pub open spec fn exchange(buffer: BufferModel, top: u16, bot: u16) -> BufferModel {
    buffer.store_top(top).store_bot(bot).advance_write().advance_read()
}

/// The sample played in a sample period in which `top` and `bot` come in:
/// what stands at the read cursor once the incoming sample is stored.
pub open spec fn played(buffer: BufferModel, top: u16, bot: u16) -> (u16, u16) {
    (
        buffer.store_top(top).store_bot(bot).load_top(),
        buffer.store_top(top).store_bot(bot).load_bot(),
    )
}

/// The buffer after the sample periods in which `samples` came in, and the
/// samples played in them, in order.
pub open spec fn echo(buffer: BufferModel, samples: Seq<(u16, u16)>) -> (
    BufferModel,
    Seq<(u16, u16)>,
)
    decreases samples.len(),
{
    if samples.len() == 0 {
        (buffer, Seq::<(u16, u16)>::empty())
    } else {
        let before = echo(buffer, samples.drop_last());
        let sample = samples.last();
        (
            exchange(before.0, sample.0, sample.1),
            before.1.push(played(before.0, sample.0, sample.1)),
        )
    }
}

/// The sample that belongs at place `frame` of the endless tape the buffer
/// is a window on: the sample that came in in that period, or, before the
/// first period, what the buffer held to begin with in the cell that place
/// falls on.
pub open spec fn tape(buffer: BufferModel, samples: Seq<(u16, u16)>, frame: int) -> (u16, u16) {
    if frame >= 0 {
        samples[frame]
    } else {
        let cell = wrap(buffer.write_cursor + frame, buffer.len()) as int;
        (buffer.top[cell], buffer.bot[cell])
    }
}

/// After any number of sample periods the buffer holds the last `len`
/// places of the tape, each in the cell it falls on, and every sample played
/// so far is the one `delay` places back on the tape.
proof fn lemma_echo_window(buffer: BufferModel, samples: Seq<(u16, u16)>)
    requires
        buffer.wf(),
    ensures
        echo(buffer, samples).0.wf(),
        echo(buffer, samples).0.len() == buffer.len(),
        echo(buffer, samples).0.write_cursor == wrap(
            (buffer.write_cursor + samples.len()) as int,
            buffer.len(),
        ),
        echo(buffer, samples).0.read_cursor == wrap(
            (buffer.read_cursor + samples.len()) as int,
            buffer.len(),
        ),
        echo(buffer, samples).1.len() == samples.len(),
        forall|frame: int|
            samples.len() - buffer.len() <= frame < samples.len() ==> {
                let cell = wrap(buffer.write_cursor + frame, buffer.len()) as int;
                &&& echo(buffer, samples).0.top[cell] == (#[trigger] tape(buffer, samples, frame)).0
                &&& echo(buffer, samples).0.bot[cell] == tape(buffer, samples, frame).1
            },
        forall|frame: int|
            0 <= frame < samples.len() ==> #[trigger] echo(buffer, samples).1[frame] == tape(
                buffer,
                samples,
                frame - buffer.delay(),
            ),
    decreases samples.len(),
{
    let len: nat = buffer.len();
    let w0: int = buffer.write_cursor as int;
    let r0: int = buffer.read_cursor as int;
    lemma_wrap_in_range(w0 - r0, len);
    if samples.len() == 0 {
        lemma_wrap_in_range(w0, len);
        lemma_wrap_in_range(r0, len);
    } else {
        let earlier: Seq<(u16, u16)> = samples.drop_last();
        let now: int = earlier.len() as int;
        let sample: (u16, u16) = samples.last();
        let before: BufferModel = echo(buffer, earlier).0;
        let stored: BufferModel = before.store_top(sample.0).store_bot(sample.1);
        let after: BufferModel = echo(buffer, samples).0;
        lemma_echo_window(buffer, earlier);

        // shape and cursors
        lemma_operations_keep_shape(before, sample.0);
        lemma_operations_keep_shape(before.store_top(sample.0), sample.1);
        lemma_operations_keep_shape(stored, 0);
        lemma_operations_keep_shape(stored.advance_write(), 0);
        lemma_wrap_add(w0 + now, 1, len);
        lemma_wrap_add(r0 + now, 1, len);
        lemma_wrap_in_range(w0 + now, len);

        // the window moves on by one place
        assert forall|frame: int| samples.len() - len <= frame < samples.len() implies {
            let cell = wrap(w0 + frame, len) as int;
            &&& after.top[cell] == (#[trigger] tape(buffer, samples, frame)).0
            &&& after.bot[cell] == tape(buffer, samples, frame).1
        } by {
            if frame < now {
                // an older place: its cell is not the one just written
                lemma_no_index_repeated(w0 + frame, w0 + now, len);
                lemma_wrap_in_range(w0 + frame, len);
                assert(tape(buffer, samples, frame) == tape(buffer, earlier, frame));
            }
        }

        // the sample played now is the one `delay` places back: the read
        // cursor stands on the cell that place falls on
        lemma_wrap_sub(w0 + now, w0 - r0, len);
    }
}

/// The delay law. In lock-step operation the sample played in a period is
/// the sample that came in exactly `delay` periods earlier; in the first
/// `delay` periods, before any such sample exists, it is what the buffer
/// held to begin with at the read cursor's cell. The delay itself is the same
/// after every period.
pub proof fn lemma_echo_delay(buffer: BufferModel, samples: Seq<(u16, u16)>, frame: int)
    requires
        buffer.wf(),
        0 <= frame < samples.len(),
    ensures
        echo(buffer, samples).1.len() == samples.len(),
        frame >= buffer.delay() ==> echo(buffer, samples).1[frame] == samples[frame
            - buffer.delay()],
        frame < buffer.delay() ==> echo(buffer, samples).1[frame] == (
            buffer.top[wrap(buffer.read_cursor + frame, buffer.len()) as int],
            buffer.bot[wrap(buffer.read_cursor + frame, buffer.len()) as int],
        ),
        echo(buffer, samples).0.wf(),
        echo(buffer, samples).0.delay() == buffer.delay(),
        echo(buffer, samples).0.len() == buffer.len(),
{
    let len: nat = buffer.len();
    let w0: int = buffer.write_cursor as int;
    let r0: int = buffer.read_cursor as int;
    lemma_echo_window(buffer, samples);
    lemma_echo_keeps_delay(buffer, samples);
    lemma_wrap_sub(w0 + frame, w0 - r0, len);
}

/// The read cursor trails the write cursor by the same number of cells after
/// every sample period.
pub proof fn lemma_echo_keeps_delay(buffer: BufferModel, samples: Seq<(u16, u16)>)
    requires
        buffer.wf(),
    ensures
        echo(buffer, samples).0.wf(),
        echo(buffer, samples).0.len() == buffer.len(),
        echo(buffer, samples).0.delay() == buffer.delay(),
    decreases samples.len(),
{
    if samples.len() > 0 {
        let before: BufferModel = echo(buffer, samples.drop_last()).0;
        let sample: (u16, u16) = samples.last();
        lemma_echo_keeps_delay(buffer, samples.drop_last());
        lemma_operations_keep_shape(before, sample.0);
        lemma_operations_keep_shape(before.store_top(sample.0), sample.1);
        lemma_delay_follows_cursors(before.store_top(sample.0).store_bot(sample.1));
    }
}

/// The left-channel samples that a stream of received words carries: of
/// every whole frame of four words, the first two.
pub open spec fn samples_of(words: Seq<u16>) -> Seq<(u16, u16)> {
    Seq::new(words.len() / 4, |frame: int| (words[4 * frame], words[4 * frame + 1]))
}

/// The word sent at `tick` when the samples played are `samples`: the top
/// half, the bottom half, then silence twice.
pub open spec fn word_sent(samples: Seq<(u16, u16)>, tick: int) -> u16 {
    if tick % 4 == 0 {
        samples[tick / 4].0
    } else if tick % 4 == 1 {
        samples[tick / 4].1
    } else {
        SILENCE
    }
}

/// The scheduler is running and both dispatchers stand at the start of a
/// frame.
pub open spec fn aligned(state: SchedulerModel) -> bool {
    &&& state.wf()
    &&& !state.halted()
    &&& state.rx_phase == ChannelPhase::LeftTop
    &&& state.tx_phase == ChannelPhase::LeftTop
}

/// One frame in lock step is one exchange on the buffer: four ticks take in
/// one sample and play one, followed by two words of silence, and leave both
/// dispatchers at the start of the next frame.
proof fn lemma_lock_step_frame(state: SchedulerModel, words: Seq<u16>)
    requires
        aligned(state),
        words.len() == 4,
    ensures
        run(state, lock_step(words)).0 == (SchedulerModel {
            buffer: exchange(state.buffer, words[0], words[1]),
            ..state
        }),
        run(state, lock_step(words)).1 == seq![
            Ok::<Option<u16>, Fault>(Some(played(state.buffer, words[0], words[1]).0)),
            Ok::<Option<u16>, Fault>(Some(played(state.buffer, words[0], words[1]).1)),
            Ok::<Option<u16>, Fault>(Some(SILENCE)),
            Ok::<Option<u16>, Fault>(Some(SILENCE)),
        ],
{
    // unfold the run tick by tick
    reveal_with_fuel(run, 5);
    lemma_operations_keep_shape(state.buffer, words[0]);
    lemma_operations_keep_shape(state.buffer.store_top(words[0]), words[1]);
    lemma_operations_keep_shape(state.buffer.store_top(words[0]).store_bot(words[1]), 0);
    assert(run(state, lock_step(words)).1 =~= seq![
        Ok::<Option<u16>, Fault>(Some(played(state.buffer, words[0], words[1]).0)),
        Ok::<Option<u16>, Fault>(Some(played(state.buffer, words[0], words[1]).1)),
        Ok::<Option<u16>, Fault>(Some(SILENCE)),
        Ok::<Option<u16>, Fault>(Some(SILENCE)),
    ]);
}

/// Whole frames in lock step are sample periods on the buffer: the buffer
/// ends where `echo` says, and the words sent are the samples `echo` plays,
/// each followed by two words of silence.
proof fn lemma_lock_step_frames(state: SchedulerModel, words: Seq<u16>)
    requires
        aligned(state),
        words.len() % 4 == 0,
    ensures
        run(state, lock_step(words)).0 == (SchedulerModel {
            buffer: echo(state.buffer, samples_of(words)).0,
            ..state
        }),
        aligned(run(state, lock_step(words)).0),
        run(state, lock_step(words)).1.len() == words.len(),
        forall|tick: int|
            0 <= tick < words.len() ==> #[trigger] run(state, lock_step(words)).1[tick] == Ok::<
                Option<u16>,
                Fault,
            >(Some(word_sent(echo(state.buffer, samples_of(words)).1, tick))),
    decreases words.len(),
{
    lemma_run_answers_every_tick(state, lock_step(words));
    lemma_echo_keeps_delay(state.buffer, samples_of(words));
    if words.len() > 0 {
        let cut: int = words.len() - 4;
        let head: Seq<u16> = words.take(cut);
        let tail: Seq<u16> = words.skip(cut);
        let samples = samples_of(words);
        lemma_lock_step_frames(state, head);
        let middle = run(state, lock_step(head));
        lemma_lock_step_frame(middle.0, tail);
        assert(lock_step(words) =~= lock_step(head) + lock_step(tail));
        lemma_run_splits(state, lock_step(head), lock_step(tail));
        assert(samples.drop_last() =~= samples_of(head));
        let before = echo(state.buffer, samples_of(head));
        lemma_echo_window(state.buffer, samples_of(head));
        assert(echo(state.buffer, samples).1 == before.1.push(
            played(before.0, tail[0], tail[1]),
        ));
        assert forall|tick: int| 0 <= tick < words.len() implies #[trigger] run(
            state,
            lock_step(words),
        ).1[tick] == Ok::<Option<u16>, Fault>(
            Some(word_sent(echo(state.buffer, samples).1, tick)),
        ) by {
            if tick >= cut {
                assert(echo(state.buffer, samples).1[tick / 4] == played(
                    before.0,
                    tail[0],
                    tail[1],
                ));
            }
        }
    }
}

/// The delay law at the scheduler. A scheduler that starts at a frame
/// boundary and is polled in lock step, one word in and one word out per
/// tick, sends in every left-channel slot the word it received in the same
/// slot exactly `delay` frames earlier. In the first `delay` frames, before
/// such a word exists, it sends what the buffer held to begin with, and in
/// every right-channel slot it sends silence.
pub proof fn lemma_lock_step_echo(state: SchedulerModel, words: Seq<u16>, tick: int)
    requires
        aligned(state),
        0 <= tick < words.len(),
    ensures
        run(state, lock_step(words)).1.len() == words.len(),
        tick % 4 >= 2 ==> run(state, lock_step(words)).1[tick] == Ok::<Option<u16>, Fault>(
            Some(SILENCE),
        ),
        tick % 4 < 2 && tick / 4 >= state.buffer.delay() ==> run(state, lock_step(words)).1[tick]
            == Ok::<Option<u16>, Fault>(Some(words[tick - 4 * state.buffer.delay()])),
        tick % 4 == 0 && tick / 4 < state.buffer.delay() ==> run(state, lock_step(words)).1[tick]
            == Ok::<Option<u16>, Fault>(
            Some(
                state.buffer.top[wrap(
                    state.buffer.read_cursor + tick / 4,
                    state.buffer.len(),
                ) as int],
            ),
        ),
        tick % 4 == 1 && tick / 4 < state.buffer.delay() ==> run(state, lock_step(words)).1[tick]
            == Ok::<Option<u16>, Fault>(
            Some(
                state.buffer.bot[wrap(
                    state.buffer.read_cursor + tick / 4,
                    state.buffer.len(),
                ) as int],
            ),
        ),
{
    // fill the last frame up with words that are never sent back by `tick`
    let missing: nat = ((4 - words.len() % 4) % 4) as nat;
    let filler: Seq<u16> = Seq::new(missing, |i: int| 0u16);
    let whole: Seq<u16> = words + filler;
    let frame: int = tick / 4;
    let delay: int = state.buffer.delay() as int;
    assert(lock_step(whole) =~= lock_step(words) + lock_step(filler));
    lemma_run_splits(state, lock_step(words), lock_step(filler));
    lemma_run_answers_every_tick(state, lock_step(words));
    assert(run(state, lock_step(whole)).1[tick] == run(state, lock_step(words)).1[tick]);
    lemma_lock_step_frames(state, whole);
    let samples = samples_of(whole);
    lemma_echo_delay(state.buffer, samples, frame);
    if frame >= delay {
        assert(samples[frame - delay] == (whole[4 * (frame - delay)], whole[4 * (frame - delay)
            + 1]));
    }
}

} // verus!
