use vstd::prelude::*;

verus! {

/// The ways in which the machine or one of its host operations can fail.
///
/// A failed operation leaves the machine as it was, so a host that goes on
/// stepping after a failed step is told of the same failure again.
#[derive(Clone, Copy, Debug, PartialEq, Eq, Structural)]
pub enum Chip8Error {
    /// The two bytes of the next instruction do not both lie in memory.
    ProgramCounterOutOfBounds,
    /// A return was executed while the call stack was empty.
    StackUnderflow,
    /// A call was executed while the call stack was full.
    StackOverflow,
    /// A program image does not fit between the start address and the end of
    /// memory.
    ProgramTooLarge,
    /// A key index outside `0..16`.
    InvalidKey,
    /// An instruction or host access addressed a byte past the end of memory.
    MemoryOutOfBounds,
}

} // verus!
