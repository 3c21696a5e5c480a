use vstd::prelude::*;

verus! {

/// The ways in which a memory access or an instruction can fail.
#[derive(Debug, Clone, Copy, PartialEq, Eq, Structural)]
pub enum Chip8Error {
    /// An access reaches past the end of memory.
    OutOfBoundsMemoryAccess,
    /// A return with an empty call stack.
    StackUnderflow,
    /// A call with a full call stack.
    StackOverflow,
    /// A `0nnn` machine-code call, which this interpreter does not run.
    UnsupportedLegacyOp,
    /// A word that matches no instruction.
    InvalidOpcode,
}

} // verus!
