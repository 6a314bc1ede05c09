//! The bring-up sequencer: the fixed, ordered list of register writes that
//! takes the codec from reset to a running, correctly configured state, and
//! the state machine that hands them out one by one.
//!
//! The order is part of the protocol. The codec is reset first; its outputs
//! stay powered down while routing and format are set; the core is activated
//! only after the format is known; and the outputs are powered last, so that
//! nothing audible happens on the way.

use vstd::prelude::*;
use crate::codec::apply_write;
use crate::codec::apply_writes;
use crate::codec::is_reset;
use crate::codec::lemma_reset_forgets;
use crate::codec::lemma_writes_keep_length;
use crate::codec::reset_file;
use crate::codec::RegisterFile;
use crate::codec::REGISTER_COUNT;
use crate::codec::REG_RESET;
use crate::control::ControlRegister;

verus! {

/// Address of the left line input register: gain and mute.
pub const REG_LEFT_LINE_IN: u8 = 0x00;

/// Address of the analogue audio path register: source select, bypass,
/// sidetone.
pub const REG_ANALOG_PATH: u8 = 0x04;

/// Address of the digital audio path register: de-emphasis and DAC mute.
pub const REG_DIGITAL_PATH: u8 = 0x05;

/// Address of the power-down register: one bit per block, set to power the
/// block down.
pub const REG_POWER_DOWN: u8 = 0x06;

/// Address of the digital audio interface format register.
pub const REG_INTERFACE_FORMAT: u8 = 0x07;

/// Address of the sampling control register.
pub const REG_SAMPLING: u8 = 0x08;

/// Address of the active control register.
pub const REG_ACTIVE: u8 = 0x09;

/// Bit of the power-down register that keeps the outputs off.
pub const POWER_DOWN_OUTPUT: u16 = 0b0_0001_0000;

/// Power-down setting while the codec is configured: clock output,
/// oscillator, outputs and microphone off; line input, ADC and DAC on.
pub const POWER_WHILE_CONFIGURING: u16 = 0b0_0111_0010;

/// Final power-down setting: as before, with the outputs on.
pub const POWER_WHEN_RUNNING: u16 = 0b0_0110_0010;

/// Left line input: not muted, 0 dB gain, left channel only.
pub const LINE_IN_UNMUTED_0DB: u16 = 0b0_0001_0111;

/// Analogue path: line input to the ADC, DAC to the output, microphone
/// muted, bypass and sidetone off.
pub const ANALOG_PATH_LINE_AND_DAC: u16 = 0b0_0001_0010;

/// Digital path: DAC not muted, de-emphasis for 48 kHz.
pub const DIGITAL_PATH_48K: u16 = 0b0_0000_0110;

/// Interface format: codec is clock master, nothing inverted, 24-bit words,
/// left justified.
pub const INTERFACE_MASTER_24_LEFT: u16 = 0b0_0100_1001;

/// Sampling control: 12 MHz (USB mode) master clock, 48 kHz for ADC and
/// DAC, no clock division.
pub const SAMPLING_48K: u16 = 0b0_0000_0001;

/// Active control: digital core on.
pub const CORE_ACTIVE: u16 = 0b0_0000_0001;

/// Number of writes in the bring-up sequence.
pub const BRING_UP_LENGTH: usize = 9;

/// Number of writes after which the codec is fully configured.
pub const CONFIGURED_AFTER: usize = 7;

/// Number of writes after which the codec's core is active.
pub const ACTIVE_AFTER: usize = 8;

/// How far the codec has been brought up. The state only ever moves
/// forward.
#[derive(Clone, Copy, Debug, PartialEq, Eq, Structural)]
pub enum CodecState {
    /// Not yet configured: at its defaults, or part of the way.
    Reset,
    /// Routing, format and sampling are set; the core is not yet active.
    Configured,
    /// The core is active.
    Active,
}

/// The write that could not be delivered. Bring-up stops for good at the
/// first one; nothing is retried.
#[derive(Clone, Copy, Debug, PartialEq, Eq, Structural)]
pub struct BusFailure {
    /// Place in the bring-up sequence of the write that failed, from 0.
    pub step: usize,
}

impl CodecState {
    /// Place of the state in the order Reset, Configured, Active.
    pub open spec fn rank(self) -> nat {
        match self {
            CodecState::Reset => 0,
            CodecState::Configured => 1,
            CodecState::Active => 2,
        }
    }

    /// The state of the codec once the first `written` writes of the
    /// bring-up sequence have arrived.
    pub open spec fn after(written: nat) -> CodecState {
        if written < CONFIGURED_AFTER {
            CodecState::Reset
        } else if written < ACTIVE_AFTER {
            CodecState::Configured
        } else {
            CodecState::Active
        }
    }
}

/// The bring-up sequence: every write, in the order it must be made.
pub open spec fn bring_up_writes() -> Seq<ControlRegister> {
    seq![
        ControlRegister { address: REG_RESET, value: 0 },
        ControlRegister { address: REG_POWER_DOWN, value: POWER_WHILE_CONFIGURING },
        ControlRegister { address: REG_LEFT_LINE_IN, value: LINE_IN_UNMUTED_0DB },
        ControlRegister { address: REG_ANALOG_PATH, value: ANALOG_PATH_LINE_AND_DAC },
        ControlRegister { address: REG_DIGITAL_PATH, value: DIGITAL_PATH_48K },
        ControlRegister { address: REG_INTERFACE_FORMAT, value: INTERFACE_MASTER_24_LEFT },
        ControlRegister { address: REG_SAMPLING, value: SAMPLING_48K },
        ControlRegister { address: REG_ACTIVE, value: CORE_ACTIVE },
        ControlRegister { address: REG_POWER_DOWN, value: POWER_WHEN_RUNNING },
    ]
}

/// The register file after the whole bring-up sequence has arrived.
pub open spec fn replay(file: RegisterFile) -> RegisterFile {
    apply_writes(file, bring_up_writes())
}

/// The register file after the first `written` writes of the bring-up
/// sequence have arrived.
pub open spec fn replay_first(file: RegisterFile, written: nat) -> RegisterFile {
    apply_writes(file, bring_up_writes().take(written as int))
}

/// The bring-up sequence as a list that can be walked.
pub fn bring_up_sequence() -> (writes: [ControlRegister; 9])
    ensures
        writes@ == bring_up_writes(),
        forall|step: int| 0 <= step < 9 ==> (#[trigger] writes[step]).valid(),
{
    let writes: [ControlRegister; 9] = [
        ControlRegister { address: REG_RESET, value: 0 },
        ControlRegister { address: REG_POWER_DOWN, value: POWER_WHILE_CONFIGURING },
        ControlRegister { address: REG_LEFT_LINE_IN, value: LINE_IN_UNMUTED_0DB },
        ControlRegister { address: REG_ANALOG_PATH, value: ANALOG_PATH_LINE_AND_DAC },
        ControlRegister { address: REG_DIGITAL_PATH, value: DIGITAL_PATH_48K },
        ControlRegister { address: REG_INTERFACE_FORMAT, value: INTERFACE_MASTER_24_LEFT },
        ControlRegister { address: REG_SAMPLING, value: SAMPLING_48K },
        ControlRegister { address: REG_ACTIVE, value: CORE_ACTIVE },
        ControlRegister { address: REG_POWER_DOWN, value: POWER_WHEN_RUNNING },
    ];
    writes
}

/// Progress of a bring-up as plain mathematics: how many writes were
/// delivered, and whether the next one failed.
pub struct BringUpModel {
    pub written: nat,
    pub failed: bool,
}

impl BringUpModel {
    /// No more writes were delivered than the sequence has.
    pub open spec fn wf(self) -> bool {
        self.written <= BRING_UP_LENGTH
    }

    /// Where every bring-up starts: nothing written, nothing failed.
    pub open spec fn start() -> BringUpModel {
        BringUpModel { written: 0, failed: false }
    }

    /// Every write was delivered.
    pub open spec fn complete(self) -> bool {
        !self.failed && self.written == BRING_UP_LENGTH
    }

    /// The state of the codec.
    pub open spec fn state(self) -> CodecState {
        CodecState::after(self.written)
    }

    /// The write to make next: the first one not yet delivered, unless the
    /// bring-up failed or is complete.
    pub open spec fn pending(self) -> Option<ControlRegister> {
        if self.failed || self.written >= BRING_UP_LENGTH {
            None
        } else {
            Some(bring_up_writes()[self.written as int])
        }
    }

    /// The progress after the bus owner has reported on the pending write.
    /// With nothing pending the report changes nothing.
    pub open spec fn acknowledge(self, delivered: bool) -> BringUpModel {
        if self.pending() is None {
            self
        } else if delivered {
            BringUpModel { written: self.written + 1, ..self }
        } else {
            BringUpModel { failed: true, ..self }
        }
    }

    /// What the sequencer answers to a report: the failed write if the
    /// bring-up has failed, now or earlier, else the state the codec is in.
    pub open spec fn answer(self, delivered: bool) -> Result<CodecState, BusFailure> {
        let next = self.acknowledge(delivered);
        if next.failed {
            Err(BusFailure { step: next.written as usize })
        } else {
            Ok(next.state())
        }
    }

    /// The progress after a run of reports, first to last.
    pub open spec fn run(self, reports: Seq<bool>) -> BringUpModel
        decreases reports.len(),
    {
        if reports.len() == 0 {
            self
        } else {
            self.run(reports.drop_last()).acknowledge(reports.last())
        }
    }
}

/// Hands out the writes of the bring-up sequence one by one and keeps track
/// of how far the codec has come.
pub struct BringUp {
    written: usize,
    failed: bool,
}

impl View for BringUp {
    type V = BringUpModel;

    closed spec fn view(&self) -> BringUpModel {
        BringUpModel { written: self.written as nat, failed: self.failed }
    }
}

impl BringUp {
    /// No more writes were delivered than the sequence has.
    pub open spec fn wf(&self) -> bool {
        self@.wf()
    }

    /// A bring-up that has not begun.
    pub fn new() -> (bring_up: Self)
        ensures
            bring_up.wf(),
            bring_up@ == BringUpModel::start(),
    {
        BringUp { written: 0, failed: false }
    }

    /// The state of the codec.
    pub fn state(&self) -> (state: CodecState)
        ensures
            state == self@.state(),
    {
        if self.written < CONFIGURED_AFTER {
            CodecState::Reset
        } else if self.written < ACTIVE_AFTER {
            CodecState::Configured
        } else {
            CodecState::Active
        }
    }

    /// Every write was delivered.
    pub fn is_complete(&self) -> (complete: bool)
        ensures
            complete == self@.complete(),
    {
        !self.failed && self.written == BRING_UP_LENGTH
    }

    /// The write that failed, if one did.
    pub fn failure(&self) -> (failure: Option<BusFailure>)
        ensures
            failure == if self@.failed {
                Some(BusFailure { step: self@.written as usize })
            } else {
                None
            },
    {
        if self.failed {
            Some(BusFailure { step: self.written })
        } else {
            None
        }
    }

    /// The write to make next, or `None` when the bring-up is complete or
    /// has failed.
    pub fn pending(&self) -> (register: Option<ControlRegister>)
        ensures
            register == self@.pending(),
            register matches Some(r) ==> r.valid(),
    {
        if self.failed || self.written >= BRING_UP_LENGTH {
            None
        } else {
            let writes: [ControlRegister; 9] = bring_up_sequence();
            Some(writes[self.written])
        }
    }

    /// Takes the bus owner's report on the pending write: delivered, or
    /// failed on the bus. A delivered write moves the bring-up on by one; a
    /// failed one stops it for good.
    pub fn acknowledge(&mut self, delivered: bool) -> (answer: Result<CodecState, BusFailure>)
        requires
            old(self).wf(),
        ensures
            final(self).wf(),
            final(self)@ == old(self)@.acknowledge(delivered),
            answer == old(self)@.answer(delivered),
            answer is Err <==> old(self)@.failed || (!delivered && old(self)@.written
                < BRING_UP_LENGTH),
            final(self)@.state().rank() >= old(self)@.state().rank(),
    {
        if self.failed {
            return Err(BusFailure { step: self.written });
        }
        if self.written < BRING_UP_LENGTH {
            if delivered {
                self.written = self.written + 1;
            } else {
                self.failed = true;
                return Err(BusFailure { step: self.written });
            }
        }
        Ok(self.state())
    }
}

/// The bring-up has no branches: as long as every write is delivered, the
/// sequencer hands out the fixed list, one write after the other, and the
/// codec goes from Reset through Configured to Active. After the last write
/// nothing is pending.
pub proof fn lemma_bring_up_is_linear(reports: Seq<bool>)
    requires
        reports.len() <= BRING_UP_LENGTH,
        forall|i: int| 0 <= i < reports.len() ==> reports[i],
    ensures
        BringUpModel::start().run(reports) == (BringUpModel {
            written: reports.len(),
            failed: false,
        }),
        reports.len() < BRING_UP_LENGTH ==> BringUpModel::start().run(reports).pending() == Some(
            bring_up_writes()[reports.len() as int],
        ),
        reports.len() == BRING_UP_LENGTH ==> BringUpModel::start().run(reports).complete()
            && BringUpModel::start().run(reports).pending() is None
            && BringUpModel::start().run(reports).state() == CodecState::Active,
    decreases reports.len(),
{
    if reports.len() > 0 {
        lemma_bring_up_is_linear(reports.drop_last());
    }
}

/// A write that fails on the bus ends the bring-up: no further write is
/// handed out, the codec's state stays where it was, and every later report
/// is answered with the same failure.
pub proof fn lemma_failure_is_final(progress: BringUpModel, delivered: bool)
    requires
        progress.failed,
    ensures
        progress.pending() is None,
        progress.acknowledge(delivered) == progress,
        progress.answer(delivered) == Err::<CodecState, BusFailure>(
            BusFailure { step: progress.written as usize },
        ),
{
}

/// The codec's state never moves backwards, whatever is reported.
pub proof fn lemma_state_is_monotonic(progress: BringUpModel, reports: Seq<bool>)
    ensures
        progress.run(reports).state().rank() >= progress.state().rank(),
        progress.run(reports).written >= progress.written,
        progress.wf() ==> progress.run(reports).wf(),
    decreases reports.len(),
{
    if reports.len() > 0 {
        lemma_state_is_monotonic(progress, reports.drop_last());
    }
}

/// The order the protocol asks for: the reset comes first; the outputs are
/// kept off by the first power-down write and turned on only by the last
/// write of all; and the core is activated after routing, format and
/// sampling are set and before the outputs come on.
pub proof fn lemma_bring_up_order()
    ensures
        bring_up_writes().len() == BRING_UP_LENGTH,
        forall|step: int| 0 <= step < BRING_UP_LENGTH ==> (#[trigger] bring_up_writes()[step]).valid(),
        is_reset(bring_up_writes()[0]),
        forall|step: int|
            0 <= step < BRING_UP_LENGTH && (#[trigger] bring_up_writes()[step]).address
                == REG_POWER_DOWN && step != BRING_UP_LENGTH - 1 ==> bring_up_writes()[step].value
                & POWER_DOWN_OUTPUT == POWER_DOWN_OUTPUT,
        bring_up_writes()[BRING_UP_LENGTH - 1].address == REG_POWER_DOWN,
        bring_up_writes()[BRING_UP_LENGTH - 1].value & POWER_DOWN_OUTPUT == 0,
        forall|step: int|
            0 <= step < BRING_UP_LENGTH && (#[trigger] bring_up_writes()[step]).address
                == REG_ACTIVE ==> step == ACTIVE_AFTER - 1,
        forall|step: int|
            0 <= step < BRING_UP_LENGTH && ((#[trigger] bring_up_writes()[step]).address
                == REG_ANALOG_PATH || bring_up_writes()[step].address == REG_DIGITAL_PATH
                || bring_up_writes()[step].address == REG_INTERFACE_FORMAT
                || bring_up_writes()[step].address == REG_SAMPLING) ==> step < CONFIGURED_AFTER,
{
    assert(POWER_WHILE_CONFIGURING & POWER_DOWN_OUTPUT == POWER_DOWN_OUTPUT) by (bit_vector)
        requires
            POWER_WHILE_CONFIGURING == 0x72,
            POWER_DOWN_OUTPUT == 0x10,
    ;
    assert(POWER_WHEN_RUNNING & POWER_DOWN_OUTPUT == 0) by (bit_vector)
        requires
            POWER_WHEN_RUNNING == 0x62,
            POWER_DOWN_OUTPUT == 0x10,
    ;
}

/// Bring-up is idempotent: replaying the sequence on a codec that has
/// already been brought up leaves every register as the first replay left
/// it. More than that, the sequence starts with a reset, so it leaves the
/// same register file whatever state the codec was in before.
pub proof fn lemma_bring_up_is_idempotent(file: RegisterFile)
    requires
        file.len() == REGISTER_COUNT,
    ensures
        replay(replay(file)) == replay(file),
        replay(file) == replay(reset_file()),
        replay(file).len() == REGISTER_COUNT,
{
    lemma_writes_keep_length(file, bring_up_writes());
    lemma_reset_forgets(file, reset_file(), bring_up_writes(), 0);
    lemma_reset_forgets(replay(file), reset_file(), bring_up_writes(), 0);
}

/// One more delivered write is one more write applied to the register file.
proof fn lemma_replay_step(file: RegisterFile, written: nat)
    requires
        written < BRING_UP_LENGTH,
    ensures
        replay_first(file, written + 1) == apply_write(
            replay_first(file, written),
            bring_up_writes()[written as int],
        ),
{
    let writes = bring_up_writes();
    assert(writes.take(written as int + 1).drop_last() =~= writes.take(written as int));
}

/// The codec's state says what its registers hold. Once the state is
/// Configured, gain, routing, format and sampling are all set; the core's
/// active bit is set exactly when the state is Active; and the outputs stay
/// powered down until the last write of the sequence has arrived. This holds
/// whatever the registers held before the bring-up began.
pub proof fn lemma_state_reflects_registers(file: RegisterFile, written: nat)
    requires
        file.len() == REGISTER_COUNT,
        1 <= written <= BRING_UP_LENGTH,
    ensures
        replay_first(file, written).len() == REGISTER_COUNT,
        CodecState::after(written) != CodecState::Reset ==> {
            &&& replay_first(file, written)[REG_LEFT_LINE_IN as int] == Some(LINE_IN_UNMUTED_0DB)
            &&& replay_first(file, written)[REG_ANALOG_PATH as int] == Some(
                ANALOG_PATH_LINE_AND_DAC,
            )
            &&& replay_first(file, written)[REG_DIGITAL_PATH as int] == Some(DIGITAL_PATH_48K)
            &&& replay_first(file, written)[REG_INTERFACE_FORMAT as int] == Some(
                INTERFACE_MASTER_24_LEFT,
            )
            &&& replay_first(file, written)[REG_SAMPLING as int] == Some(SAMPLING_48K)
        },
        CodecState::after(written) == CodecState::Active <==> replay_first(
            file,
            written,
        )[REG_ACTIVE as int] == Some(CORE_ACTIVE),
        CodecState::after(written) != CodecState::Active ==> replay_first(
            file,
            written,
        )[REG_ACTIVE as int] is None,
        written == 1 ==> replay_first(file, written) == reset_file(),
        1 < written < BRING_UP_LENGTH ==> replay_first(file, written)[REG_POWER_DOWN as int]
            == Some(POWER_WHILE_CONFIGURING),
        written == BRING_UP_LENGTH ==> replay_first(file, written)[REG_POWER_DOWN as int] == Some(
            POWER_WHEN_RUNNING,
        ),
        written == BRING_UP_LENGTH ==> replay_first(file, written) == replay(file),
{
    lemma_replay_step(file, 0);
    lemma_replay_step(file, 1);
    lemma_replay_step(file, 2);
    lemma_replay_step(file, 3);
    lemma_replay_step(file, 4);
    lemma_replay_step(file, 5);
    lemma_replay_step(file, 6);
    lemma_replay_step(file, 7);
    lemma_replay_step(file, 8);
}

} // verus!
