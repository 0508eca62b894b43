//! Narrow integer domains used by the instruction set.

use vstd::prelude::*;

verus! {

/// A 4-bit value, in the range `[0, 15]`.
#[derive(Clone, Copy, Debug, PartialEq, Eq, Structural)]
pub struct Nibble {
    pub v: u8,
}

/// Rejection of a byte outside the range `[0, 15]`.
#[derive(Clone, Copy, Debug, PartialEq, Eq, Structural)]
pub struct InvalidNibble;

impl Nibble {
    /// True when the stored value is a legal 4-bit quantity.
    pub open spec fn wf(&self) -> bool {
        self.v < 16
    }

    /// Validates a byte into the nibble range.
    pub fn new(value: u8) -> (r: Result<Nibble, InvalidNibble>)
        ensures
            value <= 0xF <==> r == Ok::<Nibble, InvalidNibble>(Nibble { v: value }),
            value > 0xF <==> r == Err::<Nibble, InvalidNibble>(InvalidNibble),
    {
        if value <= 0xF {
            Ok(Nibble { v: value })
        } else {
            Err(InvalidNibble)
        }
    }

    /// The nibble as a byte.
    pub fn value(&self) -> (r: u8)
        ensures
            r == self.v,
    {
        self.v
    }
}

} // verus!
