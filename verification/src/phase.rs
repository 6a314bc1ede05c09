//! The four channel slots of one stereo frame and the order they come in.

use vstd::prelude::*;

verus! {

/// Which slot of the stereo frame the next hardware word belongs to. Each
/// logical sample crosses the stream as two words, top then bottom, and the
/// left channel comes before the right.
#[derive(Clone, Copy, Debug, PartialEq, Eq, Structural)]
pub enum ChannelPhase {
    LeftTop,
    LeftBot,
    RightTop,
    RightBot,
}

impl ChannelPhase {
    /// Place of the slot within its frame, 0 to 3.
    pub open spec fn index(self) -> nat {
        match self {
            ChannelPhase::LeftTop => 0,
            ChannelPhase::LeftBot => 1,
            ChannelPhase::RightTop => 2,
            ChannelPhase::RightBot => 3,
        }
    }

    /// The slot at a place counted from the start of any frame.
    pub open spec fn at(place: nat) -> ChannelPhase {
        if place % 4 == 0 {
            ChannelPhase::LeftTop
        } else if place % 4 == 1 {
            ChannelPhase::LeftBot
        } else if place % 4 == 2 {
            ChannelPhase::RightTop
        } else {
            ChannelPhase::RightBot
        }
    }

    /// The transition table: the slot that follows this one.
    pub open spec fn spec_next(self) -> ChannelPhase {
        match self {
            ChannelPhase::LeftTop => ChannelPhase::LeftBot,
            ChannelPhase::LeftBot => ChannelPhase::RightTop,
            ChannelPhase::RightTop => ChannelPhase::RightBot,
            ChannelPhase::RightBot => ChannelPhase::LeftTop,
        }
    }

    /// The slot reached after `pulses` transitions.
    pub open spec fn after(self, pulses: nat) -> ChannelPhase
        decreases pulses,
    {
        if pulses == 0 {
            self
        } else {
            self.after((pulses - 1) as nat).spec_next()
        }
    }

    /// The slot belongs to the left channel, the one that carries signal.
    pub open spec fn spec_is_left(self) -> bool {
        self == ChannelPhase::LeftTop || self == ChannelPhase::LeftBot
    }

    /// How many of the `pulses` slots that start at this one close a left
    /// sample, that is, are `LeftBot`.
    pub open spec fn samples_closed(self, pulses: nat) -> nat {
        ((self.index() + pulses + 2) / 4 - (self.index() + 2) / 4) as nat
    }

    /// The slot every dispatcher starts in.
    pub fn first() -> (p: ChannelPhase)
        ensures
            p == ChannelPhase::LeftTop,
    {
        ChannelPhase::LeftTop
    }

    /// Takes one transition.
    #[verifier::when_used_as_spec(spec_next)]
    pub fn next(self) -> (p: ChannelPhase)
        ensures
            p == self.spec_next(),
            p.index() == (self.index() + 1) % 4,
            p != self,
    {
        match self {
            ChannelPhase::LeftTop => ChannelPhase::LeftBot,
            ChannelPhase::LeftBot => ChannelPhase::RightTop,
            ChannelPhase::RightTop => ChannelPhase::RightBot,
            ChannelPhase::RightBot => ChannelPhase::LeftTop,
        }
    }

    /// Tells the left channel's slots from the right channel's.
    #[verifier::when_used_as_spec(spec_is_left)]
    pub fn is_left(self) -> (left: bool)
        ensures
            left == self.spec_is_left(),
    {
        match self {
            ChannelPhase::LeftTop => true,
            ChannelPhase::LeftBot => true,
            ChannelPhase::RightTop => false,
            ChannelPhase::RightBot => false,
        }
    }
}

/// The phase cycles LeftTop, LeftBot, RightTop, RightBot and round again:
/// after any number of pulses it stands at the slot that many places on,
/// counted modulo four. No slot is skipped and none comes twice in a row.
pub proof fn lemma_phase_cycles(start: ChannelPhase, pulses: nat)
    ensures
        start.after(pulses) == ChannelPhase::at(start.index() + pulses),
        start.after(pulses).index() == (start.index() + pulses) % 4,
        start.after(pulses + 1) == start.after(pulses).spec_next(),
        start.after(pulses + 1) != start.after(pulses),
    decreases pulses,
{
    if pulses > 0 {
        lemma_phase_cycles(start, (pulses - 1) as nat);
    }
}

/// Four pulses make one frame: the phase is back where it was, and exactly
/// one left sample was closed on the way.
pub proof fn lemma_phase_period(start: ChannelPhase, pulses: nat)
    ensures
        start.after(pulses + 4) == start.after(pulses),
        start.samples_closed(pulses + 4) == start.samples_closed(pulses) + 1,
        start.samples_closed(0) == 0,
{
    lemma_phase_cycles(start, pulses);
    lemma_phase_cycles(start, pulses + 4);
}

/// One more pulse closes one more left sample exactly when it lands on
/// `LeftBot`.
pub proof fn lemma_samples_closed_step(start: ChannelPhase, pulses: nat)
    ensures
        start.samples_closed(pulses + 1) == start.samples_closed(pulses) + if start.after(pulses)
            == ChannelPhase::LeftBot {
            1nat
        } else {
            0nat
        },
{
    lemma_phase_cycles(start, pulses);
}

} // verus!
