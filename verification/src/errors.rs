//! Fatal conditions and step outcomes of the execution engine.
use vstd::prelude::*;

verus! {

/// A fatal condition.  Every variant stops the run: the engine does not
/// recover, roll back or retry.
#[derive(Clone, Copy, Debug, PartialEq, Eq, Structural)]
pub enum Chip8Error {
    /// The decoded fields match no opcode; carries the raw word.
    UnknownInstruction(u16),
    /// A return was attempted with an empty call stack.
    StackUnderflow,
    /// A call was attempted with all 16 stack slots in use.
    StackOverflow,
    /// A write below the program-start boundary.
    ProtectedWrite,
    /// A fetch, read or write past the end of memory.
    AddressOutOfBounds,
    /// A key-state query for a key index of 16 or more.
    InvalidKey,
    /// A program image longer than the writable region.
    RomTooLarge,
}

/// What a successful step did.
#[derive(Clone, Copy, Debug, PartialEq, Eq, Structural)]
pub enum StepEvent {
    /// One instruction was fetched, decoded and executed.
    Ran,
    /// The current instruction waits for a key and none is held: no state
    /// changed, and the caller should pump input and step again.
    WaitingForKey,
}

} // verus!
