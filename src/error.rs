use vstd::prelude::*;

verus! {

/// A fatal condition met while fetching or executing an instruction.
#[derive(Clone, Copy, Debug, PartialEq, Eq, Structural)]
pub enum ChipError {
    /// The instruction word matches no known opcode pattern.
    InvalidOpcode,
    /// The program counter or index register addresses memory outside `[0, 4096)`,
    /// or an address computation leaves the 16-bit range.
    OutOfBoundsAccess,
    /// A call was made with all return slots in use.
    StackOverflow,
    /// A return was made with no pending call.
    StackUnderflow,
    /// A font glyph was requested for a value above 15.
    InvalidDigit,
}

} // verus!
