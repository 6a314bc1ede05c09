//! A shadow of the codec's register file: what the codec holds as far as the
//! frames sent over the control bus can tell. It stands in for the codec
//! where none is wired up, and it is what the laws about the bring-up
//! sequence speak of.

use vstd::prelude::*;
use crate::control::ControlRegister;

verus! {

/// Number of registers a 7-bit address can name.
pub const REGISTER_COUNT: usize = 128;

/// Address of the reset register. Writing zero to it puts every register
/// back to its power-on default.
pub const REG_RESET: u8 = 0x0f;

/// The register file as plain mathematics: for each address the value last
/// written since the last reset, or `None` where the power-on default still
/// stands.
pub type RegisterFile = Seq<Option<u16>>;

/// The register file straight after a reset: every register at its default.
pub open spec fn reset_file() -> RegisterFile {
    Seq::new(REGISTER_COUNT as nat, |address: int| None::<u16>)
}

/// The write is the one that resets the codec.
pub open spec fn is_reset(register: ControlRegister) -> bool {
    register.address == REG_RESET && register.value == 0
}

/// The register file after one write has arrived. A write to an address that
/// no frame can carry never arrives.
pub open spec fn apply_write(file: RegisterFile, register: ControlRegister) -> RegisterFile {
    if is_reset(register) {
        reset_file()
    } else if register.address < file.len() {
        file.update(register.address as int, Some(register.value))
    } else {
        file
    }
}

/// The register file after a list of writes has arrived, first to last.
pub open spec fn apply_writes(file: RegisterFile, writes: Seq<ControlRegister>) -> RegisterFile
    decreases writes.len(),
{
    if writes.len() == 0 {
        file
    } else {
        apply_write(apply_writes(file, writes.drop_last()), writes.last())
    }
}

/// Shadow of the register file of the codec at the far end of the control
/// bus.
#[derive(Clone, Copy, Debug, PartialEq, Eq)]
pub struct CodecShadow {
    registers: [Option<u16>; 128],
}

impl View for CodecShadow {
    type V = RegisterFile;

    closed spec fn view(&self) -> RegisterFile {
        self.registers@
    }
}

impl CodecShadow {
    /// A codec fresh out of reset.
    pub fn new() -> (shadow: Self)
        ensures
            shadow@ == reset_file(),
    {
        let shadow = CodecShadow { registers: [None; 128] };
        shadow
    }

    /// The value last written to `address` since the last reset, or `None`
    /// if the register still has its default or the address is out of range.
    pub fn get(&self, address: u8) -> (value: Option<u16>)
        ensures
            value == if address < REGISTER_COUNT {
                self@[address as int]
            } else {
                None
            },
    {
        if address < 128 {
            self.registers[address as usize]
        } else {
            None
        }
    }

    /// Takes one frame off the bus and does what it says.
    pub fn write_frame(&mut self, first: u8, second: u8)
        ensures
            final(self)@ == apply_write(old(self)@, ControlRegister::spec_from_frame(first, second)),
            final(self)@.len() == REGISTER_COUNT,
    {
        let register: ControlRegister = ControlRegister::from_frame(first, second);
        if register.address == REG_RESET && register.value == 0 {
            self.registers = [None; 128];
        } else {
            self.registers[register.address as usize] = Some(register.value);
        }
    }

    /// Frames the register write and takes the frame, as if it had crossed
    /// the bus.
    pub fn write(&mut self, register: ControlRegister)
        ensures
            final(self)@ == apply_write(
                old(self)@,
                ControlRegister::spec_from_frame(register.first_byte(), register.second_byte()),
            ),
            register.valid() ==> final(self)@ == apply_write(old(self)@, register),
    {
        let bytes: [u8; 2] = register.frame();
        proof {
            crate::control::lemma_frame_round_trip(register);
        }
        self.write_frame(bytes[0], bytes[1]);
    }
}

/// A list of writes leaves the register file as long as it was.
pub proof fn lemma_writes_keep_length(file: RegisterFile, writes: Seq<ControlRegister>)
    requires
        file.len() == REGISTER_COUNT,
    ensures
        apply_writes(file, writes).len() == REGISTER_COUNT,
    decreases writes.len(),
{
    if writes.len() > 0 {
        lemma_writes_keep_length(file, writes.drop_last());
    }
}

/// A list of writes that holds a reset forgets what came before it: the
/// register file it leaves does not depend on the one it started from.
pub proof fn lemma_reset_forgets(
    first: RegisterFile,
    second: RegisterFile,
    writes: Seq<ControlRegister>,
    at: int,
)
    requires
        0 <= at < writes.len(),
        is_reset(writes[at]),
    ensures
        apply_writes(first, writes) == apply_writes(second, writes),
    decreases writes.len(),
{
    if at == writes.len() - 1 {
    } else {
        lemma_reset_forgets(first, second, writes.drop_last(), at);
    }
}

} // verus!
