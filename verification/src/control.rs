//! The control channel: how one codec register write is framed and put on the
//! synchronous control bus.

use vstd::prelude::*;

verus! {

/// Largest register address the control frame can carry (7 bits).
pub const MAX_ADDRESS: u8 = 0x7f;

/// Largest register value the control frame can carry (9 bits).
pub const MAX_VALUE: u16 = 0x1ff;

/// Microseconds chip-select is held high after a frame. The codec asks for
/// 20 ns at least; one microsecond is the shortest delay the bus driver offers.
pub const DESELECT_HOLD_US: u8 = 1;

/// One codec setting: a 7-bit register address and a 9-bit value.
#[derive(Clone, Copy, Debug, PartialEq, Eq, Structural)]
pub struct ControlRegister {
    pub address: u8,
    pub value: u16,
}

/// One thing the owner of the control bus does during a register write.
#[derive(Clone, Copy, Debug, PartialEq, Eq, Structural)]
pub enum BusAction {
    /// Drive chip-select low.
    Select,
    /// Shift the two frame bytes out, `first` first.
    Transmit { first: u8, second: u8 },
    /// Drive chip-select high.
    Deselect,
    /// Keep chip-select high for at least this many microseconds.
    Hold { micros: u8 },
}

impl ControlRegister {
    /// The address fits in 7 bits and the value in 9.
    pub open spec fn valid(self) -> bool {
        self.address <= MAX_ADDRESS && self.value <= MAX_VALUE
    }

    /// First frame byte: the address shifted up by one, with bit 8 of the
    /// value in the lowest place. Bits that do not fit the frame are dropped.
    pub open spec fn first_byte(self) -> u8 {
        ((self.address as int * 2) % 256 + (self.value as int / 256) % 2) as u8
    }

    /// Second frame byte: the low 8 bits of the value.
    pub open spec fn second_byte(self) -> u8 {
        (self.value as int % 256) as u8
    }

    /// The two bytes of the control frame, in the order they are sent.
    pub open spec fn spec_frame(self) -> Seq<u8> {
        seq![self.first_byte(), self.second_byte()]
    }

    /// What the bus owner does to write this register: select, send the
    /// frame, deselect, then hold chip-select high.
    pub open spec fn spec_transaction(self) -> Seq<BusAction> {
        seq![
            BusAction::Select,
            BusAction::Transmit { first: self.first_byte(), second: self.second_byte() },
            BusAction::Deselect,
            BusAction::Hold { micros: DESELECT_HOLD_US },
        ]
    }

    /// The setting that a frame carries: the upper seven bits of the first
    /// byte are the address, its lowest bit and the second byte the value.
    pub open spec fn spec_from_frame(first: u8, second: u8) -> ControlRegister {
        ControlRegister { address: first / 2, value: ((first % 2) * 256 + second) as u16 }
    }

    /// Builds a register setting, or `None` if the address needs more than
    /// 7 bits or the value more than 9.
    pub fn new(address: u8, value: u16) -> (r: Option<ControlRegister>)
        ensures
            r == if address <= MAX_ADDRESS && value <= MAX_VALUE {
                Some(ControlRegister { address, value })
            } else {
                None::<ControlRegister>
            },
    {
        if address <= MAX_ADDRESS && value <= MAX_VALUE {
            Some(ControlRegister { address, value })
        } else {
            None
        }
    }

    /// Frames the register write as the two bytes that go on the wire.
    pub fn frame(self) -> (bytes: [u8; 2])
        ensures
            bytes@ == self.spec_frame(),
            self.valid() ==> bytes[0] == self.address * 2 + self.value / 256,
    {
        let address: u8 = self.address;
        let value: u16 = self.value;
        let first: u8 = (address << 1) | (((value & 0x100) >> 8) as u8);
        let second: u8 = (value & 0xff) as u8;
        proof {
            assert(first == ((address as int * 2) % 256 + (value as int / 256) % 2) as u8) by (bit_vector)
                requires
                    first == (address << 1) | (((value & 0x100) >> 8) as u8),
            ;
            assert(second == (value as int % 256) as u8) by (bit_vector)
                requires
                    second == (value & 0xff) as u8,
            ;
        }
        let bytes: [u8; 2] = [first, second];
        assert(bytes@ =~= self.spec_frame());
        bytes
    }

    /// Reads a frame as the device at the other end of the bus does.
    pub fn from_frame(first: u8, second: u8) -> (register: ControlRegister)
        ensures
            register == ControlRegister::spec_from_frame(first, second),
            register.valid(),
    {
        let address: u8 = first >> 1;
        let value: u16 = (((first & 1) as u16) << 8) | (second as u16);
        proof {
            assert(address == first / 2) by (bit_vector)
                requires
                    address == first >> 1,
            ;
            assert(value == (first % 2) * 256 + second && value <= 0x1ff) by (bit_vector)
                requires
                    value == (((first & 1) as u16) << 8) | (second as u16),
            ;
        }
        ControlRegister { address, value }
    }

    /// The steps of one register write, in the order the bus owner takes them.
    pub fn transaction(self) -> (steps: [BusAction; 4])
        ensures
            steps@ == self.spec_transaction(),
    {
        let bytes: [u8; 2] = self.frame();
        [
            BusAction::Select,
            BusAction::Transmit { first: bytes[0], second: bytes[1] },
            BusAction::Deselect,
            BusAction::Hold { micros: DESELECT_HOLD_US },
        ]
    }
}

/// Framing loses nothing: the device reads back from the frame of a valid
/// setting exactly that setting. A setting that is not valid arrives cut down
/// to the seven and nine bits the frame has room for.
pub proof fn lemma_frame_round_trip(register: ControlRegister)
    ensures
        ControlRegister::spec_from_frame(register.first_byte(), register.second_byte())
            == (ControlRegister {
            address: register.address % 128,
            value: register.value % 512,
        }),
        register.valid() ==> ControlRegister::spec_from_frame(
            register.first_byte(),
            register.second_byte(),
        ) == register,
{
}

} // verus!
