//! The sixteen general-purpose byte registers and the validated index type
//! used to address them.

use vstd::prelude::*;

verus! {

/// How many general-purpose registers the machine has.
pub const NUM_REGISTERS: usize = 16;

/// A validated register number, in the range `[0, 15]`.
#[derive(Clone, Copy, Debug, PartialEq, Eq, Structural)]
pub struct RegisterIndex {
    pub v: u8,
}

/// Rejection of a register number outside the range `[0, 15]`.
#[derive(Clone, Copy, Debug, PartialEq, Eq, Structural)]
pub struct InvalidRegisterIndex;

impl RegisterIndex {
    /// True when the stored value addresses one of the sixteen registers.
    pub open spec fn wf(&self) -> bool {
        self.v < 16
    }

    /// Validates a byte into the register-index range.
    pub fn new(value: u8) -> (r: Result<RegisterIndex, InvalidRegisterIndex>)
        ensures
            value < 16 <==> r == Ok::<RegisterIndex, InvalidRegisterIndex>(RegisterIndex { v: value }),
            value >= 16 <==> r == Err::<RegisterIndex, InvalidRegisterIndex>(InvalidRegisterIndex),
    {
        if value < NUM_REGISTERS as u8 {
            Ok(RegisterIndex { v: value })
        } else {
            Err(InvalidRegisterIndex)
        }
    }

    /// The register number as a `usize`.
    pub fn value(&self) -> (r: usize)
        ensures
            r == self.v,
    {
        self.v as usize
    }
}

/// The register file: sixteen byte registers, viewed as a sequence of
/// sixteen bytes.
pub struct RegisterFile {
    registers: [u8; 16],
}

impl View for RegisterFile {
    type V = Seq<u8>;

    closed spec fn view(&self) -> Seq<u8> {
        self.registers@
    }
}

impl RegisterFile {
    /// A register file with every register zeroed.
    pub fn new() -> (r: RegisterFile)
        ensures
            r@.len() == 16,
            forall|i: int| 0 <= i < 16 ==> r@[i] == 0u8,
    {
        RegisterFile { registers: [0u8; 16] }
    }

    /// Reads the register named by `reg`.
    pub fn get(&self, reg: RegisterIndex) -> (r: u8)
        requires
            reg.wf(),
        ensures
            r == self@[reg.v as int],
    {
        self.registers[reg.v as usize]
    }

    /// Overwrites the register named by `reg`.
    pub fn set(&mut self, reg: RegisterIndex, val: u8)
        requires
            reg.wf(),
        ensures
            final(self)@ == old(self)@.update(reg.v as int, val),
    {
        self.registers[reg.v as usize] = val;
    }
}

} // verus!
