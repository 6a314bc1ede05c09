//! The polling scheduler: one step per tick of the caller's loop. The caller
//! reads the status of the receive side and of the transmit side of the
//! duplex stream and says what it saw; the scheduler drives both dispatchers
//! and answers with the word to send, if any. A fault seen once halts the
//! scheduler for good.

use vstd::prelude::*;
use crate::buffer::BufferModel;
use crate::buffer::DelayBuffer;
use crate::dispatch::rx_receive;
use crate::dispatch::tx_transmit;
use crate::dispatch::tx_word;
use crate::dispatch::RxDispatcher;
use crate::dispatch::TxDispatcher;
use crate::phase::ChannelPhase;

verus! {

/// Why the stream cannot go on. Either fault means a sample was lost and the
/// phase trackers no longer match the wire; only a device reset mends that.
#[derive(Clone, Copy, Debug, PartialEq, Eq, Structural)]
pub enum Fault {
    /// The hardware dropped an incoming word because it was not taken in time.
    Overrun,
    /// The hardware needed an outgoing word before one was supplied.
    Underrun,
}

/// What one poll of the receive side showed.
#[derive(Clone, Copy, Debug, PartialEq, Eq, Structural)]
pub enum RxEvent {
    /// No word is waiting.
    Idle,
    /// The receive-ready flag was set and this word was read.
    Word(u16),
    /// The overrun flag was set.
    Overrun,
}

/// What one poll of the transmit side showed.
#[derive(Clone, Copy, Debug, PartialEq, Eq, Structural)]
pub enum TxEvent {
    /// The transmitter still holds its last word.
    Idle,
    /// The transmit-ready flag was set: one word can be written.
    Ready,
    /// The underrun flag was set.
    Underrun,
}

/// The state of the scheduler as plain mathematics.
pub struct SchedulerModel {
    pub buffer: BufferModel,
    pub rx_phase: ChannelPhase,
    pub tx_phase: ChannelPhase,
    pub fault: Option<Fault>,
}

impl SchedulerModel {
    /// The buffer is well formed.
    pub open spec fn wf(self) -> bool {
        self.buffer.wf()
    }

    /// A fault was seen; nothing is consumed or produced any more.
    pub open spec fn halted(self) -> bool {
        self.fault is Some
    }

    /// The state every scheduler starts in: a silent buffer of `length`
    /// samples with the given delay, both dispatchers at `LeftTop`.
    pub open spec fn start(length: nat, delay_offset: nat) -> SchedulerModel {
        SchedulerModel {
            buffer: BufferModel::fresh(length, delay_offset),
            rx_phase: ChannelPhase::LeftTop,
            tx_phase: ChannelPhase::LeftTop,
            fault: None,
        }
    }

    /// The state after the receive half of a step.
    pub open spec fn service_rx(self, event: RxEvent) -> SchedulerModel {
        if self.halted() {
            self
        } else {
            match event {
                RxEvent::Idle => self,
                RxEvent::Word(word) => SchedulerModel {
                    buffer: rx_receive(self.rx_phase, self.buffer, word),
                    rx_phase: self.rx_phase.spec_next(),
                    ..self
                },
                RxEvent::Overrun => SchedulerModel { fault: Some(Fault::Overrun), ..self },
            }
        }
    }

    /// The state after the transmit half of a step.
    pub open spec fn service_tx(self, event: TxEvent) -> SchedulerModel {
        if self.halted() {
            self
        } else {
            match event {
                TxEvent::Idle => self,
                TxEvent::Ready => SchedulerModel {
                    buffer: tx_transmit(self.tx_phase, self.buffer),
                    tx_phase: self.tx_phase.spec_next(),
                    ..self
                },
                TxEvent::Underrun => SchedulerModel { fault: Some(Fault::Underrun), ..self },
            }
        }
    }

    /// What the receive half of a step answers: the fault that halted the
    /// stream, now or earlier, or nothing.
    pub open spec fn rx_answer(self, event: RxEvent) -> Result<(), Fault> {
        match self.service_rx(event).fault {
            Some(fault) => Err(fault),
            None => Ok(()),
        }
    }

    /// What the transmit half of a step answers: the fault that halted the
    /// stream, now or earlier; else the word to write on a ready pulse; else
    /// nothing.
    pub open spec fn tx_answer(self, event: TxEvent) -> Result<Option<u16>, Fault> {
        match self.service_tx(event).fault {
            Some(fault) => Err(fault),
            None => match event {
                TxEvent::Ready => Ok(Some(tx_word(self.tx_phase, self.buffer))),
                _ => Ok(None),
            },
        }
    }

    /// The state after one whole step: the receive side is served first, then
    /// the transmit side.
    pub open spec fn step(self, rx: RxEvent, tx: TxEvent) -> SchedulerModel {
        self.service_rx(rx).service_tx(tx)
    }

    /// What one whole step answers.
    pub open spec fn step_answer(self, rx: RxEvent, tx: TxEvent) -> Result<Option<u16>, Fault> {
        self.service_rx(rx).tx_answer(tx)
    }
}

/// The state after a run of ticks, and what each tick answered, in order.
pub open spec fn run(state: SchedulerModel, ticks: Seq<(RxEvent, TxEvent)>) -> (
    SchedulerModel,
    Seq<Result<Option<u16>, Fault>>,
)
    decreases ticks.len(),
{
    if ticks.len() == 0 {
        (state, Seq::<Result<Option<u16>, Fault>>::empty())
    } else {
        let before = run(state, ticks.drop_last());
        let tick = ticks.last();
        (before.0.step(tick.0, tick.1), before.1.push(before.0.step_answer(tick.0, tick.1)))
    }
}

/// The ticks of lock-step operation: on every tick one word has arrived and
/// one word is asked for.
pub open spec fn lock_step(words: Seq<u16>) -> Seq<(RxEvent, TxEvent)> {
    Seq::new(words.len(), |tick: int| (RxEvent::Word(words[tick]), TxEvent::Ready))
}

/// The echo pedal's signal path: the delay buffer, the two dispatchers that
/// work on it, and the fault that halted them, if one did.
pub struct Scheduler<const N: usize> {
    buffer: DelayBuffer<N>,
    rx: RxDispatcher,
    tx: TxDispatcher,
    fault: Option<Fault>,
}

impl<const N: usize> View for Scheduler<N> {
    type V = SchedulerModel;

    closed spec fn view(&self) -> SchedulerModel {
        SchedulerModel {
            buffer: self.buffer@,
            rx_phase: self.rx@,
            tx_phase: self.tx@,
            fault: self.fault,
        }
    }
}

impl<const N: usize> Scheduler<N> {
    /// The buffer holds `N` samples and both cursors name a cell.
    pub open spec fn wf(&self) -> bool {
        self@.wf() && self@.buffer.len() == N
    }

    /// A scheduler over a silent buffer whose read cursor trails the write
    /// cursor by `delay_offset` cells, counted round the ring.
    pub fn new(delay_offset: usize) -> (scheduler: Self)
        requires
            N > 0,
        ensures
            scheduler.wf(),
            scheduler@ == SchedulerModel::start(N as nat, delay_offset as nat),
            scheduler@.buffer.delay() == delay_offset % N,
    {
        Scheduler {
            buffer: DelayBuffer::new(delay_offset),
            rx: RxDispatcher::new(),
            tx: TxDispatcher::new(),
            fault: None,
        }
    }

    /// The delay buffer, to look at.
    pub fn buffer(&self) -> (buffer: &DelayBuffer<N>)
        ensures
            buffer@ == self@.buffer,
            self.wf() ==> buffer.wf(),
    {
        &self.buffer
    }

    /// The slot the next incoming word belongs to.
    pub fn rx_phase(&self) -> (phase: ChannelPhase)
        ensures
            phase == self@.rx_phase,
    {
        self.rx.phase()
    }

    /// The slot the next outgoing word belongs to.
    pub fn tx_phase(&self) -> (phase: ChannelPhase)
        ensures
            phase == self@.tx_phase,
    {
        self.tx.phase()
    }

    /// The fault that halted the scheduler, if one did.
    pub fn fault(&self) -> (fault: Option<Fault>)
        ensures
            fault == self@.fault,
    {
        self.fault
    }

    /// The receive half of a step. An overrun halts the scheduler; a word is
    /// handed to the receive dispatcher; an idle poll changes nothing. Once
    /// halted, the scheduler takes no more words and answers with the fault
    /// that halted it.
    pub fn service_rx(&mut self, event: RxEvent) -> (answer: Result<(), Fault>)
        requires
            old(self).wf(),
        ensures
            final(self).wf(),
            final(self)@ == old(self)@.service_rx(event),
            answer == old(self)@.rx_answer(event),
            answer is Err <==> old(self)@.halted() || event == RxEvent::Overrun,
    {
        if let Some(fault) = self.fault {
            return Err(fault);
        }
        match event {
            RxEvent::Idle => Ok(()),
            RxEvent::Word(word) => {
                self.rx.receive(&mut self.buffer, word);
                Ok(())
            },
            RxEvent::Overrun => {
                self.fault = Some(Fault::Overrun);
                Err(Fault::Overrun)
            },
        }
    }

    /// The transmit half of a step. An underrun halts the scheduler; a ready
    /// pulse is answered with the next word of the transmit dispatcher; an
    /// idle poll changes nothing. Once halted, the scheduler gives no more
    /// words and answers with the fault that halted it.
    pub fn service_tx(&mut self, event: TxEvent) -> (answer: Result<Option<u16>, Fault>)
        requires
            old(self).wf(),
        ensures
            final(self).wf(),
            final(self)@ == old(self)@.service_tx(event),
            answer == old(self)@.tx_answer(event),
            answer is Err <==> old(self)@.halted() || event == TxEvent::Underrun,
            answer matches Ok(word) ==> (word is Some <==> event == TxEvent::Ready),
    {
        if let Some(fault) = self.fault {
            return Err(fault);
        }
        match event {
            TxEvent::Idle => Ok(None),
            TxEvent::Ready => {
                let word: u16 = self.tx.transmit(&mut self.buffer);
                Ok(Some(word))
            },
            TxEvent::Underrun => {
                self.fault = Some(Fault::Underrun);
                Err(Fault::Underrun)
            },
        }
    }

    /// One tick of the polling loop: serves the receive side, then the
    /// transmit side, and answers with the word to write to the transmitter,
    /// if it asked for one. A fault on either side, now or on an earlier
    /// tick, is the answer instead.
    pub fn step(&mut self, rx: RxEvent, tx: TxEvent) -> (answer: Result<Option<u16>, Fault>)
        requires
            old(self).wf(),
        ensures
            final(self).wf(),
            final(self)@ == old(self)@.step(rx, tx),
            answer == old(self)@.step_answer(rx, tx),
            answer is Err <==> old(self)@.halted() || rx == RxEvent::Overrun || tx
                == TxEvent::Underrun,
            old(self)@.halted() ==> final(self)@ == old(self)@,
    {
        let _ = self.service_rx(rx);
        self.service_tx(tx)
    }
}

/// A halted scheduler stays as it is: whatever the polls show afterwards, no
/// word is consumed, none is produced, and the answer is the fault that
/// halted it.
pub proof fn lemma_halt_is_final(state: SchedulerModel, rx: RxEvent, tx: TxEvent)
    requires
        state.halted(),
    ensures
        state.service_rx(rx) == state,
        state.service_tx(tx) == state,
        state.step(rx, tx) == state,
        state.rx_answer(rx) == Err::<(), Fault>(state.fault->0),
        state.tx_answer(tx) == Err::<Option<u16>, Fault>(state.fault->0),
        state.step_answer(rx, tx) == Err::<Option<u16>, Fault>(state.fault->0),
{
}

/// An overrun seen by a running scheduler halts it without touching the
/// buffer or either phase, and the transmit side is not served on that tick.
pub proof fn lemma_overrun_halts(state: SchedulerModel, tx: TxEvent)
    requires
        !state.halted(),
    ensures
        state.step(RxEvent::Overrun, tx) == (SchedulerModel {
            fault: Some(Fault::Overrun),
            ..state
        }),
        state.step_answer(RxEvent::Overrun, tx) == Err::<Option<u16>, Fault>(Fault::Overrun),
{
}

/// A run may be cut in two anywhere: the second part starts from the state
/// the first part left, and the answers follow one another.
pub proof fn lemma_run_splits(
    state: SchedulerModel,
    first: Seq<(RxEvent, TxEvent)>,
    second: Seq<(RxEvent, TxEvent)>,
)
    ensures
        run(state, first + second).0 == run(run(state, first).0, second).0,
        run(state, first + second).1 == run(state, first).1 + run(run(state, first).0, second).1,
        run(state, first).1.len() == first.len(),
    decreases second.len(),
{
    lemma_run_answers_every_tick(state, first);
    if second.len() > 0 {
        lemma_run_splits(state, first, second.drop_last());
        assert((first + second).drop_last() =~= first + second.drop_last());
    }
}

/// Every tick of a run gets one answer.
pub proof fn lemma_run_answers_every_tick(state: SchedulerModel, ticks: Seq<(RxEvent, TxEvent)>)
    ensures
        run(state, ticks).1.len() == ticks.len(),
    decreases ticks.len(),
{
    if ticks.len() > 0 {
        lemma_run_answers_every_tick(state, ticks.drop_last());
    }
}

/// Once halted, always halted: over any run of ticks a halted scheduler
/// keeps its state, and every tick is answered with the fault that halted it.
pub proof fn lemma_halt_outlasts_every_run(
    state: SchedulerModel,
    ticks: Seq<(RxEvent, TxEvent)>,
    tick: int,
)
    requires
        state.halted(),
        0 <= tick < ticks.len(),
    ensures
        run(state, ticks).0 == state,
        run(state, ticks).1.len() == ticks.len(),
        run(state, ticks).1[tick] == Err::<Option<u16>, Fault>(state.fault->0),
    decreases ticks.len(),
{
    lemma_run_answers_every_tick(state, ticks);
    lemma_halt_keeps_state(state, ticks.drop_last());
    if tick < ticks.len() - 1 {
        lemma_halt_outlasts_every_run(state, ticks.drop_last(), tick);
    }
}

/// A halted scheduler keeps its state over any run of ticks.
proof fn lemma_halt_keeps_state(state: SchedulerModel, ticks: Seq<(RxEvent, TxEvent)>)
    requires
        state.halted(),
    ensures
        run(state, ticks).0 == state,
    decreases ticks.len(),
{
    if ticks.len() > 0 {
        lemma_halt_keeps_state(state, ticks.drop_last());
    }
}

} // verus!
